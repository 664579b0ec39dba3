//! Word lists of the neutral tone rules.

use vstd::hash_set::StringHashSet;
use vstd::prelude::*;

verus! {

/// A set with one more part of the words that end in a neutral tone.
pub open spec fn neutral_1(s: Set<Seq<char>>) -> Set<Seq<char>> {
    s
        .insert("麻烦"@).insert("麻利"@).insert("鸳鸯"@).insert("高粱"@)
        .insert("骨头"@).insert("骆驼"@).insert("马虎"@).insert("首饰"@)
        .insert("馒头"@).insert("馄饨"@).insert("风筝"@).insert("难为"@)
        .insert("队伍"@).insert("阔气"@).insert("闺女"@).insert("门道"@)
        .insert("锄头"@).insert("铺盖"@).insert("铃铛"@).insert("铁匠"@)
        .insert("钥匙"@).insert("里脊"@).insert("里头"@).insert("部分"@)
}

fn add_neutral_1(s: &mut StringHashSet)
    ensures
        final(s)@ == neutral_1(old(s)@),
{
    s.insert("麻烦".to_owned());
    s.insert("麻利".to_owned());
    s.insert("鸳鸯".to_owned());
    s.insert("高粱".to_owned());
    s.insert("骨头".to_owned());
    s.insert("骆驼".to_owned());
    s.insert("马虎".to_owned());
    s.insert("首饰".to_owned());
    s.insert("馒头".to_owned());
    s.insert("馄饨".to_owned());
    s.insert("风筝".to_owned());
    s.insert("难为".to_owned());
    s.insert("队伍".to_owned());
    s.insert("阔气".to_owned());
    s.insert("闺女".to_owned());
    s.insert("门道".to_owned());
    s.insert("锄头".to_owned());
    s.insert("铺盖".to_owned());
    s.insert("铃铛".to_owned());
    s.insert("铁匠".to_owned());
    s.insert("钥匙".to_owned());
    s.insert("里脊".to_owned());
    s.insert("里头".to_owned());
    s.insert("部分".to_owned());
}

/// A set with one more part of the words that end in a neutral tone.
pub open spec fn neutral_2(s: Set<Seq<char>>) -> Set<Seq<char>> {
    s
        .insert("那么"@).insert("道士"@).insert("造化"@).insert("迷糊"@)
        .insert("连累"@).insert("这么"@).insert("这个"@).insert("运气"@)
        .insert("过去"@).insert("软和"@).insert("转悠"@).insert("踏实"@)
        .insert("跳蚤"@).insert("跟头"@).insert("趔趄"@).insert("财主"@)
        .insert("豆腐"@).insert("讲究"@).insert("记性"@).insert("记号"@)
        .insert("认识"@).insert("规矩"@).insert("见识"@).insert("裁缝"@)
}

fn add_neutral_2(s: &mut StringHashSet)
    ensures
        final(s)@ == neutral_2(old(s)@),
{
    s.insert("那么".to_owned());
    s.insert("道士".to_owned());
    s.insert("造化".to_owned());
    s.insert("迷糊".to_owned());
    s.insert("连累".to_owned());
    s.insert("这么".to_owned());
    s.insert("这个".to_owned());
    s.insert("运气".to_owned());
    s.insert("过去".to_owned());
    s.insert("软和".to_owned());
    s.insert("转悠".to_owned());
    s.insert("踏实".to_owned());
    s.insert("跳蚤".to_owned());
    s.insert("跟头".to_owned());
    s.insert("趔趄".to_owned());
    s.insert("财主".to_owned());
    s.insert("豆腐".to_owned());
    s.insert("讲究".to_owned());
    s.insert("记性".to_owned());
    s.insert("记号".to_owned());
    s.insert("认识".to_owned());
    s.insert("规矩".to_owned());
    s.insert("见识".to_owned());
    s.insert("裁缝".to_owned());
}

/// A set with one more part of the words that end in a neutral tone.
pub open spec fn neutral_3(s: Set<Seq<char>>) -> Set<Seq<char>> {
    s
        .insert("补丁"@).insert("衣裳"@).insert("衣服"@).insert("衙门"@)
        .insert("街坊"@).insert("行李"@).insert("行当"@).insert("蛤蟆"@)
        .insert("蘑菇"@).insert("薄荷"@).insert("葫芦"@).insert("葡萄"@)
        .insert("萝卜"@).insert("荸荠"@).insert("苗条"@).insert("苗头"@)
        .insert("苍蝇"@).insert("芝麻"@).insert("舒服"@).insert("舒坦"@)
        .insert("舌头"@).insert("自在"@).insert("膏药"@).insert("脾气"@)
}

fn add_neutral_3(s: &mut StringHashSet)
    ensures
        final(s)@ == neutral_3(old(s)@),
{
    s.insert("补丁".to_owned());
    s.insert("衣裳".to_owned());
    s.insert("衣服".to_owned());
    s.insert("衙门".to_owned());
    s.insert("街坊".to_owned());
    s.insert("行李".to_owned());
    s.insert("行当".to_owned());
    s.insert("蛤蟆".to_owned());
    s.insert("蘑菇".to_owned());
    s.insert("薄荷".to_owned());
    s.insert("葫芦".to_owned());
    s.insert("葡萄".to_owned());
    s.insert("萝卜".to_owned());
    s.insert("荸荠".to_owned());
    s.insert("苗条".to_owned());
    s.insert("苗头".to_owned());
    s.insert("苍蝇".to_owned());
    s.insert("芝麻".to_owned());
    s.insert("舒服".to_owned());
    s.insert("舒坦".to_owned());
    s.insert("舌头".to_owned());
    s.insert("自在".to_owned());
    s.insert("膏药".to_owned());
    s.insert("脾气".to_owned());
}

/// A set with one more part of the words that end in a neutral tone.
pub open spec fn neutral_4(s: Set<Seq<char>>) -> Set<Seq<char>> {
    s
        .insert("脑袋"@).insert("脊梁"@).insert("能耐"@).insert("胳膊"@)
        .insert("胭脂"@).insert("胡萝"@).insert("胡琴"@).insert("胡同"@)
        .insert("聪明"@).insert("耽误"@).insert("耽搁"@).insert("耷拉"@)
        .insert("耳朵"@).insert("老爷"@).insert("老实"@).insert("老婆"@)
        .insert("老头"@).insert("老太"@).insert("翻腾"@).insert("罗嗦"@)
        .insert("罐头"@).insert("编辑"@).insert("结实"@).insert("红火"@)
}

fn add_neutral_4(s: &mut StringHashSet)
    ensures
        final(s)@ == neutral_4(old(s)@),
{
    s.insert("脑袋".to_owned());
    s.insert("脊梁".to_owned());
    s.insert("能耐".to_owned());
    s.insert("胳膊".to_owned());
    s.insert("胭脂".to_owned());
    s.insert("胡萝".to_owned());
    s.insert("胡琴".to_owned());
    s.insert("胡同".to_owned());
    s.insert("聪明".to_owned());
    s.insert("耽误".to_owned());
    s.insert("耽搁".to_owned());
    s.insert("耷拉".to_owned());
    s.insert("耳朵".to_owned());
    s.insert("老爷".to_owned());
    s.insert("老实".to_owned());
    s.insert("老婆".to_owned());
    s.insert("老头".to_owned());
    s.insert("老太".to_owned());
    s.insert("翻腾".to_owned());
    s.insert("罗嗦".to_owned());
    s.insert("罐头".to_owned());
    s.insert("编辑".to_owned());
    s.insert("结实".to_owned());
    s.insert("红火".to_owned());
}

/// A set with one more part of the words that end in a neutral tone.
pub open spec fn neutral_5(s: Set<Seq<char>>) -> Set<Seq<char>> {
    s
        .insert("累赘"@).insert("糨糊"@).insert("糊涂"@).insert("精神"@)
        .insert("粮食"@).insert("簸箕"@).insert("篱笆"@).insert("算计"@)
        .insert("算盘"@).insert("答应"@).insert("笤帚"@).insert("笑语"@)
        .insert("笑话"@).insert("窟窿"@).insert("窝囊"@).insert("窗户"@)
        .insert("稳当"@).insert("稀罕"@).insert("称呼"@).insert("秧歌"@)
        .insert("秀气"@).insert("秀才"@).insert("福气"@).insert("祖宗"@)
}

fn add_neutral_5(s: &mut StringHashSet)
    ensures
        final(s)@ == neutral_5(old(s)@),
{
    s.insert("累赘".to_owned());
    s.insert("糨糊".to_owned());
    s.insert("糊涂".to_owned());
    s.insert("精神".to_owned());
    s.insert("粮食".to_owned());
    s.insert("簸箕".to_owned());
    s.insert("篱笆".to_owned());
    s.insert("算计".to_owned());
    s.insert("算盘".to_owned());
    s.insert("答应".to_owned());
    s.insert("笤帚".to_owned());
    s.insert("笑语".to_owned());
    s.insert("笑话".to_owned());
    s.insert("窟窿".to_owned());
    s.insert("窝囊".to_owned());
    s.insert("窗户".to_owned());
    s.insert("稳当".to_owned());
    s.insert("稀罕".to_owned());
    s.insert("称呼".to_owned());
    s.insert("秧歌".to_owned());
    s.insert("秀气".to_owned());
    s.insert("秀才".to_owned());
    s.insert("福气".to_owned());
    s.insert("祖宗".to_owned());
}

/// A set with one more part of the words that end in a neutral tone.
pub open spec fn neutral_6(s: Set<Seq<char>>) -> Set<Seq<char>> {
    s
        .insert("砚台"@).insert("码头"@).insert("石榴"@).insert("石头"@)
        .insert("石匠"@).insert("知识"@).insert("眼睛"@).insert("眯缝"@)
        .insert("眨巴"@).insert("眉毛"@).insert("相声"@).insert("盘算"@)
        .insert("白净"@).insert("痢疾"@).insert("痛快"@).insert("疟疾"@)
        .insert("疙瘩"@).insert("疏忽"@).insert("畜生"@).insert("生意"@)
        .insert("甘蔗"@).insert("琵琶"@).insert("琢磨"@).insert("琉璃"@)
}

fn add_neutral_6(s: &mut StringHashSet)
    ensures
        final(s)@ == neutral_6(old(s)@),
{
    s.insert("砚台".to_owned());
    s.insert("码头".to_owned());
    s.insert("石榴".to_owned());
    s.insert("石头".to_owned());
    s.insert("石匠".to_owned());
    s.insert("知识".to_owned());
    s.insert("眼睛".to_owned());
    s.insert("眯缝".to_owned());
    s.insert("眨巴".to_owned());
    s.insert("眉毛".to_owned());
    s.insert("相声".to_owned());
    s.insert("盘算".to_owned());
    s.insert("白净".to_owned());
    s.insert("痢疾".to_owned());
    s.insert("痛快".to_owned());
    s.insert("疟疾".to_owned());
    s.insert("疙瘩".to_owned());
    s.insert("疏忽".to_owned());
    s.insert("畜生".to_owned());
    s.insert("生意".to_owned());
    s.insert("甘蔗".to_owned());
    s.insert("琵琶".to_owned());
    s.insert("琢磨".to_owned());
    s.insert("琉璃".to_owned());
}

/// A set with one more part of the words that end in a neutral tone.
pub open spec fn neutral_7(s: Set<Seq<char>>) -> Set<Seq<char>> {
    s
        .insert("玻璃"@).insert("玫瑰"@).insert("玄乎"@).insert("狐狸"@)
        .insert("状元"@).insert("特务"@).insert("牲口"@).insert("牙碜"@)
        .insert("牌楼"@).insert("爽快"@).insert("爱人"@).insert("热闹"@)
        .insert("烧饼"@).insert("烟筒"@).insert("烂糊"@).insert("点心"@)
        .insert("炊帚"@).insert("灯笼"@).insert("火候"@).insert("漂亮"@)
        .insert("滑溜"@).insert("溜达"@).insert("温和"@).insert("清楚"@)
}

fn add_neutral_7(s: &mut StringHashSet)
    ensures
        final(s)@ == neutral_7(old(s)@),
{
    s.insert("玻璃".to_owned());
    s.insert("玫瑰".to_owned());
    s.insert("玄乎".to_owned());
    s.insert("狐狸".to_owned());
    s.insert("状元".to_owned());
    s.insert("特务".to_owned());
    s.insert("牲口".to_owned());
    s.insert("牙碜".to_owned());
    s.insert("牌楼".to_owned());
    s.insert("爽快".to_owned());
    s.insert("爱人".to_owned());
    s.insert("热闹".to_owned());
    s.insert("烧饼".to_owned());
    s.insert("烟筒".to_owned());
    s.insert("烂糊".to_owned());
    s.insert("点心".to_owned());
    s.insert("炊帚".to_owned());
    s.insert("灯笼".to_owned());
    s.insert("火候".to_owned());
    s.insert("漂亮".to_owned());
    s.insert("滑溜".to_owned());
    s.insert("溜达".to_owned());
    s.insert("温和".to_owned());
    s.insert("清楚".to_owned());
}

/// A set with one more part of the words that end in a neutral tone.
pub open spec fn neutral_8(s: Set<Seq<char>>) -> Set<Seq<char>> {
    s
        .insert("消息"@).insert("浪头"@).insert("活泼"@).insert("比方"@)
        .insert("正经"@).insert("欺负"@).insert("模糊"@).insert("槟榔"@)
        .insert("棺材"@).insert("棒槌"@).insert("棉花"@).insert("核桃"@)
        .insert("栅栏"@).insert("柴火"@).insert("架势"@).insert("枕头"@)
        .insert("枇杷"@).insert("机灵"@).insert("本事"@).insert("木头"@)
        .insert("木匠"@).insert("朋友"@).insert("月饼"@).insert("月亮"@)
}

fn add_neutral_8(s: &mut StringHashSet)
    ensures
        final(s)@ == neutral_8(old(s)@),
{
    s.insert("消息".to_owned());
    s.insert("浪头".to_owned());
    s.insert("活泼".to_owned());
    s.insert("比方".to_owned());
    s.insert("正经".to_owned());
    s.insert("欺负".to_owned());
    s.insert("模糊".to_owned());
    s.insert("槟榔".to_owned());
    s.insert("棺材".to_owned());
    s.insert("棒槌".to_owned());
    s.insert("棉花".to_owned());
    s.insert("核桃".to_owned());
    s.insert("栅栏".to_owned());
    s.insert("柴火".to_owned());
    s.insert("架势".to_owned());
    s.insert("枕头".to_owned());
    s.insert("枇杷".to_owned());
    s.insert("机灵".to_owned());
    s.insert("本事".to_owned());
    s.insert("木头".to_owned());
    s.insert("木匠".to_owned());
    s.insert("朋友".to_owned());
    s.insert("月饼".to_owned());
    s.insert("月亮".to_owned());
}

/// A set with one more part of the words that end in a neutral tone.
pub open spec fn neutral_9(s: Set<Seq<char>>) -> Set<Seq<char>> {
    s
        .insert("暖和"@).insert("明白"@).insert("时候"@).insert("新鲜"@)
        .insert("故事"@).insert("收拾"@).insert("收成"@).insert("提防"@)
        .insert("挖苦"@).insert("挑剔"@).insert("指甲"@).insert("指头"@)
        .insert("拾掇"@).insert("拳头"@).insert("拨弄"@).insert("招牌"@)
        .insert("招呼"@).insert("抬举"@).insert("护士"@).insert("折腾"@)
        .insert("扫帚"@).insert("打量"@).insert("打算"@).insert("打点"@)
}

fn add_neutral_9(s: &mut StringHashSet)
    ensures
        final(s)@ == neutral_9(old(s)@),
{
    s.insert("暖和".to_owned());
    s.insert("明白".to_owned());
    s.insert("时候".to_owned());
    s.insert("新鲜".to_owned());
    s.insert("故事".to_owned());
    s.insert("收拾".to_owned());
    s.insert("收成".to_owned());
    s.insert("提防".to_owned());
    s.insert("挖苦".to_owned());
    s.insert("挑剔".to_owned());
    s.insert("指甲".to_owned());
    s.insert("指头".to_owned());
    s.insert("拾掇".to_owned());
    s.insert("拳头".to_owned());
    s.insert("拨弄".to_owned());
    s.insert("招牌".to_owned());
    s.insert("招呼".to_owned());
    s.insert("抬举".to_owned());
    s.insert("护士".to_owned());
    s.insert("折腾".to_owned());
    s.insert("扫帚".to_owned());
    s.insert("打量".to_owned());
    s.insert("打算".to_owned());
    s.insert("打点".to_owned());
}

/// A set with one more part of the words that end in a neutral tone.
pub open spec fn neutral_10(s: Set<Seq<char>>) -> Set<Seq<char>> {
    s
        .insert("打扮"@).insert("打听"@).insert("打发"@).insert("扎实"@)
        .insert("扁担"@).insert("戒指"@).insert("懒得"@).insert("意识"@)
        .insert("意思"@).insert("情形"@).insert("悟性"@).insert("怪物"@)
        .insert("思量"@).insert("怎么"@).insert("念头"@).insert("念叨"@)
        .insert("快活"@).insert("忙活"@).insert("志气"@).insert("心思"@)
        .insert("得罪"@).insert("张罗"@).insert("弟兄"@).insert("开通"@)
}

fn add_neutral_10(s: &mut StringHashSet)
    ensures
        final(s)@ == neutral_10(old(s)@),
{
    s.insert("打扮".to_owned());
    s.insert("打听".to_owned());
    s.insert("打发".to_owned());
    s.insert("扎实".to_owned());
    s.insert("扁担".to_owned());
    s.insert("戒指".to_owned());
    s.insert("懒得".to_owned());
    s.insert("意识".to_owned());
    s.insert("意思".to_owned());
    s.insert("情形".to_owned());
    s.insert("悟性".to_owned());
    s.insert("怪物".to_owned());
    s.insert("思量".to_owned());
    s.insert("怎么".to_owned());
    s.insert("念头".to_owned());
    s.insert("念叨".to_owned());
    s.insert("快活".to_owned());
    s.insert("忙活".to_owned());
    s.insert("志气".to_owned());
    s.insert("心思".to_owned());
    s.insert("得罪".to_owned());
    s.insert("张罗".to_owned());
    s.insert("弟兄".to_owned());
    s.insert("开通".to_owned());
}

/// A set with one more part of the words that end in a neutral tone.
pub open spec fn neutral_11(s: Set<Seq<char>>) -> Set<Seq<char>> {
    s
        .insert("应酬"@).insert("庄稼"@).insert("干事"@).insert("帮手"@)
        .insert("帐篷"@).insert("希罕"@).insert("师父"@).insert("师傅"@)
        .insert("巴结"@).insert("巴掌"@).insert("差事"@).insert("工夫"@)
        .insert("岁数"@).insert("屁股"@).insert("尾巴"@).insert("少爷"@)
        .insert("小气"@).insert("小伙"@).insert("将就"@).insert("对头"@)
        .insert("对付"@).insert("寡妇"@).insert("家伙"@).insert("客气"@)
}

fn add_neutral_11(s: &mut StringHashSet)
    ensures
        final(s)@ == neutral_11(old(s)@),
{
    s.insert("应酬".to_owned());
    s.insert("庄稼".to_owned());
    s.insert("干事".to_owned());
    s.insert("帮手".to_owned());
    s.insert("帐篷".to_owned());
    s.insert("希罕".to_owned());
    s.insert("师父".to_owned());
    s.insert("师傅".to_owned());
    s.insert("巴结".to_owned());
    s.insert("巴掌".to_owned());
    s.insert("差事".to_owned());
    s.insert("工夫".to_owned());
    s.insert("岁数".to_owned());
    s.insert("屁股".to_owned());
    s.insert("尾巴".to_owned());
    s.insert("少爷".to_owned());
    s.insert("小气".to_owned());
    s.insert("小伙".to_owned());
    s.insert("将就".to_owned());
    s.insert("对头".to_owned());
    s.insert("对付".to_owned());
    s.insert("寡妇".to_owned());
    s.insert("家伙".to_owned());
    s.insert("客气".to_owned());
}

/// A set with one more part of the words that end in a neutral tone.
pub open spec fn neutral_12(s: Set<Seq<char>>) -> Set<Seq<char>> {
    s
        .insert("实在"@).insert("官司"@).insert("学问"@).insert("学生"@)
        .insert("字号"@).insert("嫁妆"@).insert("媳妇"@).insert("媒人"@)
        .insert("婆家"@).insert("娘家"@).insert("委屈"@).insert("姑娘"@)
        .insert("姐夫"@).insert("妯娌"@).insert("妥当"@).insert("妖精"@)
        .insert("奴才"@).insert("女婿"@).insert("头发"@).insert("太阳"@)
        .insert("大爷"@).insert("大方"@).insert("大意"@).insert("大夫"@)
}

fn add_neutral_12(s: &mut StringHashSet)
    ensures
        final(s)@ == neutral_12(old(s)@),
{
    s.insert("实在".to_owned());
    s.insert("官司".to_owned());
    s.insert("学问".to_owned());
    s.insert("学生".to_owned());
    s.insert("字号".to_owned());
    s.insert("嫁妆".to_owned());
    s.insert("媳妇".to_owned());
    s.insert("媒人".to_owned());
    s.insert("婆家".to_owned());
    s.insert("娘家".to_owned());
    s.insert("委屈".to_owned());
    s.insert("姑娘".to_owned());
    s.insert("姐夫".to_owned());
    s.insert("妯娌".to_owned());
    s.insert("妥当".to_owned());
    s.insert("妖精".to_owned());
    s.insert("奴才".to_owned());
    s.insert("女婿".to_owned());
    s.insert("头发".to_owned());
    s.insert("太阳".to_owned());
    s.insert("大爷".to_owned());
    s.insert("大方".to_owned());
    s.insert("大意".to_owned());
    s.insert("大夫".to_owned());
}

/// A set with one more part of the words that end in a neutral tone.
pub open spec fn neutral_13(s: Set<Seq<char>>) -> Set<Seq<char>> {
    s
        .insert("多少"@).insert("多么"@).insert("外甥"@).insert("壮实"@)
        .insert("地道"@).insert("地方"@).insert("在乎"@).insert("困难"@)
        .insert("嘴巴"@).insert("嘱咐"@).insert("嘟囔"@).insert("嘀咕"@)
        .insert("喜欢"@).insert("喇嘛"@).insert("喇叭"@).insert("商量"@)
        .insert("唾沫"@).insert("哑巴"@).insert("哈欠"@).insert("哆嗦"@)
        .insert("咳嗽"@).insert("和尚"@).insert("告诉"@).insert("告示"@)
}

fn add_neutral_13(s: &mut StringHashSet)
    ensures
        final(s)@ == neutral_13(old(s)@),
{
    s.insert("多少".to_owned());
    s.insert("多么".to_owned());
    s.insert("外甥".to_owned());
    s.insert("壮实".to_owned());
    s.insert("地道".to_owned());
    s.insert("地方".to_owned());
    s.insert("在乎".to_owned());
    s.insert("困难".to_owned());
    s.insert("嘴巴".to_owned());
    s.insert("嘱咐".to_owned());
    s.insert("嘟囔".to_owned());
    s.insert("嘀咕".to_owned());
    s.insert("喜欢".to_owned());
    s.insert("喇嘛".to_owned());
    s.insert("喇叭".to_owned());
    s.insert("商量".to_owned());
    s.insert("唾沫".to_owned());
    s.insert("哑巴".to_owned());
    s.insert("哈欠".to_owned());
    s.insert("哆嗦".to_owned());
    s.insert("咳嗽".to_owned());
    s.insert("和尚".to_owned());
    s.insert("告诉".to_owned());
    s.insert("告示".to_owned());
}

/// A set with one more part of the words that end in a neutral tone.
pub open spec fn neutral_14(s: Set<Seq<char>>) -> Set<Seq<char>> {
    s
        .insert("含糊"@).insert("吓唬"@).insert("后头"@).insert("名字"@)
        .insert("名堂"@).insert("合同"@).insert("吆喝"@).insert("叫唤"@)
        .insert("口袋"@).insert("厚道"@).insert("厉害"@).insert("千斤"@)
        .insert("包袱"@).insert("包涵"@).insert("匀称"@).insert("勤快"@)
        .insert("动静"@).insert("动弹"@).insert("功夫"@).insert("力气"@)
        .insert("前头"@).insert("刺猬"@).insert("刺激"@).insert("别扭"@)
}

fn add_neutral_14(s: &mut StringHashSet)
    ensures
        final(s)@ == neutral_14(old(s)@),
{
    s.insert("含糊".to_owned());
    s.insert("吓唬".to_owned());
    s.insert("后头".to_owned());
    s.insert("名字".to_owned());
    s.insert("名堂".to_owned());
    s.insert("合同".to_owned());
    s.insert("吆喝".to_owned());
    s.insert("叫唤".to_owned());
    s.insert("口袋".to_owned());
    s.insert("厚道".to_owned());
    s.insert("厉害".to_owned());
    s.insert("千斤".to_owned());
    s.insert("包袱".to_owned());
    s.insert("包涵".to_owned());
    s.insert("匀称".to_owned());
    s.insert("勤快".to_owned());
    s.insert("动静".to_owned());
    s.insert("动弹".to_owned());
    s.insert("功夫".to_owned());
    s.insert("力气".to_owned());
    s.insert("前头".to_owned());
    s.insert("刺猬".to_owned());
    s.insert("刺激".to_owned());
    s.insert("别扭".to_owned());
}

/// A set with one more part of the words that end in a neutral tone.
pub open spec fn neutral_15(s: Set<Seq<char>>) -> Set<Seq<char>> {
    s
        .insert("利落"@).insert("利索"@).insert("利害"@).insert("分析"@)
        .insert("出息"@).insert("凑合"@).insert("凉快"@).insert("冷战"@)
        .insert("冤枉"@).insert("冒失"@).insert("养活"@).insert("关系"@)
        .insert("先生"@).insert("兄弟"@).insert("便宜"@).insert("使唤"@)
        .insert("佩服"@).insert("作坊"@).insert("体面"@).insert("位置"@)
        .insert("似的"@).insert("伙计"@).insert("休息"@).insert("什么"@)
}

fn add_neutral_15(s: &mut StringHashSet)
    ensures
        final(s)@ == neutral_15(old(s)@),
{
    s.insert("利落".to_owned());
    s.insert("利索".to_owned());
    s.insert("利害".to_owned());
    s.insert("分析".to_owned());
    s.insert("出息".to_owned());
    s.insert("凑合".to_owned());
    s.insert("凉快".to_owned());
    s.insert("冷战".to_owned());
    s.insert("冤枉".to_owned());
    s.insert("冒失".to_owned());
    s.insert("养活".to_owned());
    s.insert("关系".to_owned());
    s.insert("先生".to_owned());
    s.insert("兄弟".to_owned());
    s.insert("便宜".to_owned());
    s.insert("使唤".to_owned());
    s.insert("佩服".to_owned());
    s.insert("作坊".to_owned());
    s.insert("体面".to_owned());
    s.insert("位置".to_owned());
    s.insert("似的".to_owned());
    s.insert("伙计".to_owned());
    s.insert("休息".to_owned());
    s.insert("什么".to_owned());
}

/// A set with one more part of the words that end in a neutral tone.
pub open spec fn neutral_16(s: Set<Seq<char>>) -> Set<Seq<char>> {
    s
        .insert("人家"@).insert("亲戚"@).insert("亲家"@).insert("交情"@)
        .insert("云彩"@).insert("事情"@).insert("买卖"@).insert("主意"@)
        .insert("丫头"@).insert("丧气"@).insert("两口"@).insert("东西"@)
        .insert("东家"@).insert("世故"@).insert("不由"@).insert("不在"@)
        .insert("下水"@).insert("下巴"@).insert("上头"@).insert("上司"@)
        .insert("丈夫"@).insert("丈人"@).insert("一辈"@).insert("那个"@)
}

fn add_neutral_16(s: &mut StringHashSet)
    ensures
        final(s)@ == neutral_16(old(s)@),
{
    s.insert("人家".to_owned());
    s.insert("亲戚".to_owned());
    s.insert("亲家".to_owned());
    s.insert("交情".to_owned());
    s.insert("云彩".to_owned());
    s.insert("事情".to_owned());
    s.insert("买卖".to_owned());
    s.insert("主意".to_owned());
    s.insert("丫头".to_owned());
    s.insert("丧气".to_owned());
    s.insert("两口".to_owned());
    s.insert("东西".to_owned());
    s.insert("东家".to_owned());
    s.insert("世故".to_owned());
    s.insert("不由".to_owned());
    s.insert("不在".to_owned());
    s.insert("下水".to_owned());
    s.insert("下巴".to_owned());
    s.insert("上头".to_owned());
    s.insert("上司".to_owned());
    s.insert("丈夫".to_owned());
    s.insert("丈人".to_owned());
    s.insert("一辈".to_owned());
    s.insert("那个".to_owned());
}

/// A set with one more part of the words that end in a neutral tone.
pub open spec fn neutral_17(s: Set<Seq<char>>) -> Set<Seq<char>> {
    s
        .insert("菩萨"@).insert("父亲"@).insert("母亲"@).insert("咕噜"@)
        .insert("邋遢"@).insert("费用"@).insert("冤家"@).insert("甜头"@)
        .insert("介绍"@).insert("荒唐"@).insert("大人"@).insert("泥鳅"@)
        .insert("幸福"@).insert("熟悉"@).insert("计划"@).insert("扑腾"@)
        .insert("蜡烛"@).insert("姥爷"@).insert("照顾"@).insert("喉咙"@)
        .insert("吉他"@).insert("弄堂"@).insert("蚂蚱"@).insert("凤凰"@)
}

fn add_neutral_17(s: &mut StringHashSet)
    ensures
        final(s)@ == neutral_17(old(s)@),
{
    s.insert("菩萨".to_owned());
    s.insert("父亲".to_owned());
    s.insert("母亲".to_owned());
    s.insert("咕噜".to_owned());
    s.insert("邋遢".to_owned());
    s.insert("费用".to_owned());
    s.insert("冤家".to_owned());
    s.insert("甜头".to_owned());
    s.insert("介绍".to_owned());
    s.insert("荒唐".to_owned());
    s.insert("大人".to_owned());
    s.insert("泥鳅".to_owned());
    s.insert("幸福".to_owned());
    s.insert("熟悉".to_owned());
    s.insert("计划".to_owned());
    s.insert("扑腾".to_owned());
    s.insert("蜡烛".to_owned());
    s.insert("姥爷".to_owned());
    s.insert("照顾".to_owned());
    s.insert("喉咙".to_owned());
    s.insert("吉他".to_owned());
    s.insert("弄堂".to_owned());
    s.insert("蚂蚱".to_owned());
    s.insert("凤凰".to_owned());
}

/// A set with one more part of the words that end in a neutral tone.
pub open spec fn neutral_18(s: Set<Seq<char>>) -> Set<Seq<char>> {
    s
        .insert("拖沓"@).insert("寒碜"@).insert("糟蹋"@).insert("倒腾"@)
        .insert("报复"@).insert("逻辑"@).insert("盘缠"@).insert("喽啰"@)
        .insert("牢骚"@).insert("咖喱"@).insert("扫把"@).insert("惦记"@)
}

fn add_neutral_18(s: &mut StringHashSet)
    ensures
        final(s)@ == neutral_18(old(s)@),
{
    s.insert("拖沓".to_owned());
    s.insert("寒碜".to_owned());
    s.insert("糟蹋".to_owned());
    s.insert("倒腾".to_owned());
    s.insert("报复".to_owned());
    s.insert("逻辑".to_owned());
    s.insert("盘缠".to_owned());
    s.insert("喽啰".to_owned());
    s.insert("牢骚".to_owned());
    s.insert("咖喱".to_owned());
    s.insert("扫把".to_owned());
    s.insert("惦记".to_owned());
}

/// Words whose last syllable is spoken in the neutral tone.
pub open spec fn neutral_words() -> Set<Seq<char>> {
    let s = Set::<Seq<char>>::empty();
    let s = neutral_1(s);
    let s = neutral_2(s);
    let s = neutral_3(s);
    let s = neutral_4(s);
    let s = neutral_5(s);
    let s = neutral_6(s);
    let s = neutral_7(s);
    let s = neutral_8(s);
    let s = neutral_9(s);
    let s = neutral_10(s);
    let s = neutral_11(s);
    let s = neutral_12(s);
    let s = neutral_13(s);
    let s = neutral_14(s);
    let s = neutral_15(s);
    let s = neutral_16(s);
    let s = neutral_17(s);
    let s = neutral_18(s);
    s
}

/// Words whose last syllable is spoken in the neutral tone.
pub fn neutral_word_set() -> (s: StringHashSet)
    ensures
        s@ == neutral_words(),
{
    let mut s = StringHashSet::new();
    add_neutral_1(&mut s);
    add_neutral_2(&mut s);
    add_neutral_3(&mut s);
    add_neutral_4(&mut s);
    add_neutral_5(&mut s);
    add_neutral_6(&mut s);
    add_neutral_7(&mut s);
    add_neutral_8(&mut s);
    add_neutral_9(&mut s);
    add_neutral_10(&mut s);
    add_neutral_11(&mut s);
    add_neutral_12(&mut s);
    add_neutral_13(&mut s);
    add_neutral_14(&mut s);
    add_neutral_15(&mut s);
    add_neutral_16(&mut s);
    add_neutral_17(&mut s);
    add_neutral_18(&mut s);
    s
}

pub open spec fn full_1(s: Set<Seq<char>>) -> Set<Seq<char>> {
    s
        .insert("男子"@).insert("女子"@).insert("分子"@).insert("原子"@)
        .insert("量子"@).insert("莲子"@).insert("石子"@).insert("瓜子"@)
        .insert("电子"@).insert("人人"@).insert("虎虎"@).insert("幺幺"@)
        .insert("干嘛"@).insert("学子"@).insert("哈哈"@).insert("数数"@)
        .insert("袅袅"@).insert("局地"@).insert("以下"@).insert("娃哈哈"@)
        .insert("花花草草"@).insert("留得"@).insert("耕地"@).insert("想想"@)
}

fn add_full_1(s: &mut StringHashSet)
    ensures
        final(s)@ == full_1(old(s)@),
{
    s.insert("男子".to_owned());
    s.insert("女子".to_owned());
    s.insert("分子".to_owned());
    s.insert("原子".to_owned());
    s.insert("量子".to_owned());
    s.insert("莲子".to_owned());
    s.insert("石子".to_owned());
    s.insert("瓜子".to_owned());
    s.insert("电子".to_owned());
    s.insert("人人".to_owned());
    s.insert("虎虎".to_owned());
    s.insert("幺幺".to_owned());
    s.insert("干嘛".to_owned());
    s.insert("学子".to_owned());
    s.insert("哈哈".to_owned());
    s.insert("数数".to_owned());
    s.insert("袅袅".to_owned());
    s.insert("局地".to_owned());
    s.insert("以下".to_owned());
    s.insert("娃哈哈".to_owned());
    s.insert("花花草草".to_owned());
    s.insert("留得".to_owned());
    s.insert("耕地".to_owned());
    s.insert("想想".to_owned());
}

pub open spec fn full_2(s: Set<Seq<char>>) -> Set<Seq<char>> {
    s
        .insert("熙熙"@).insert("攘攘"@).insert("卵子"@).insert("死死"@)
        .insert("冉冉"@).insert("恳恳"@).insert("佼佼"@).insert("吵吵"@)
        .insert("打打"@).insert("考考"@).insert("整整"@).insert("莘莘"@)
        .insert("落地"@).insert("算子"@).insert("家家户户"@).insert("青青"@)
}

fn add_full_2(s: &mut StringHashSet)
    ensures
        final(s)@ == full_2(old(s)@),
{
    s.insert("熙熙".to_owned());
    s.insert("攘攘".to_owned());
    s.insert("卵子".to_owned());
    s.insert("死死".to_owned());
    s.insert("冉冉".to_owned());
    s.insert("恳恳".to_owned());
    s.insert("佼佼".to_owned());
    s.insert("吵吵".to_owned());
    s.insert("打打".to_owned());
    s.insert("考考".to_owned());
    s.insert("整整".to_owned());
    s.insert("莘莘".to_owned());
    s.insert("落地".to_owned());
    s.insert("算子".to_owned());
    s.insert("家家户户".to_owned());
    s.insert("青青".to_owned());
}

/// Words that keep their tones although a neutral tone rule matches them.
pub open spec fn full_tone_words() -> Set<Seq<char>> {
    let s = Set::<Seq<char>>::empty();
    let s = full_1(s);
    let s = full_2(s);
    s
}

/// Words that keep their tones although a neutral tone rule matches them.
pub fn full_tone_word_set() -> (s: StringHashSet)
    ensures
        s@ == full_tone_words(),
{
    let mut s = StringHashSet::new();
    add_full_1(&mut s);
    add_full_2(&mut s);
    s
}

} // verus!
