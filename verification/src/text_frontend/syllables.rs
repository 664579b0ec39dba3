//! Initials and finals of the Mandarin syllables.

use vstd::hash_map::StringHashMap;
use vstd::prelude::*;

verus! {

/// Syllables without an initial.
pub open spec fn syllables_bare(
    m: Map<Seq<char>, (&'static str, &'static str)>,
) -> Map<Seq<char>, (&'static str, &'static str)> {
    m
        .insert("a"@, ("", "a")).insert("ai"@, ("", "a"))
        .insert("an"@, ("", "an")).insert("ang"@, ("", "ang"))
        .insert("ao"@, ("", "ao")).insert("e"@, ("", "e"))
        .insert("ei"@, ("", "e")).insert("en"@, ("", "en"))
        .insert("eng"@, ("", "eng")).insert("er"@, ("", "er"))
        .insert("o"@, ("", "o")).insert("ou"@, ("", "o"))
}

fn add_bare(m: &mut StringHashMap<(&'static str, &'static str)>)
    ensures
        final(m)@ == syllables_bare(old(m)@),
{
    m.insert("a".to_owned(), ("", "a"));
    m.insert("ai".to_owned(), ("", "a"));
    m.insert("an".to_owned(), ("", "an"));
    m.insert("ang".to_owned(), ("", "ang"));
    m.insert("ao".to_owned(), ("", "ao"));
    m.insert("e".to_owned(), ("", "e"));
    m.insert("ei".to_owned(), ("", "e"));
    m.insert("en".to_owned(), ("", "en"));
    m.insert("eng".to_owned(), ("", "eng"));
    m.insert("er".to_owned(), ("", "er"));
    m.insert("o".to_owned(), ("", "o"));
    m.insert("ou".to_owned(), ("", "o"));
}

/// Syllables of the initial `b`.
pub open spec fn syllables_b(
    m: Map<Seq<char>, (&'static str, &'static str)>,
) -> Map<Seq<char>, (&'static str, &'static str)> {
    m
        .insert("ba"@, ("b", "a")).insert("bai"@, ("b", "ai"))
        .insert("ban"@, ("b", "an")).insert("bang"@, ("b", "ang"))
        .insert("bao"@, ("b", "ao")).insert("bei"@, ("b", "e"))
        .insert("ben"@, ("b", "en")).insert("beng"@, ("b", "eng"))
        .insert("bi"@, ("b", "i")).insert("bian"@, ("b", "ian"))
        .insert("biao"@, ("b", "iao")).insert("bie"@, ("b", "ie"))
        .insert("bin"@, ("b", "in")).insert("bing"@, ("b", "ing"))
        .insert("bo"@, ("b", "o")).insert("bu"@, ("b", "u"))
}

fn add_b(m: &mut StringHashMap<(&'static str, &'static str)>)
    ensures
        final(m)@ == syllables_b(old(m)@),
{
    m.insert("ba".to_owned(), ("b", "a"));
    m.insert("bai".to_owned(), ("b", "ai"));
    m.insert("ban".to_owned(), ("b", "an"));
    m.insert("bang".to_owned(), ("b", "ang"));
    m.insert("bao".to_owned(), ("b", "ao"));
    m.insert("bei".to_owned(), ("b", "e"));
    m.insert("ben".to_owned(), ("b", "en"));
    m.insert("beng".to_owned(), ("b", "eng"));
    m.insert("bi".to_owned(), ("b", "i"));
    m.insert("bian".to_owned(), ("b", "ian"));
    m.insert("biao".to_owned(), ("b", "iao"));
    m.insert("bie".to_owned(), ("b", "ie"));
    m.insert("bin".to_owned(), ("b", "in"));
    m.insert("bing".to_owned(), ("b", "ing"));
    m.insert("bo".to_owned(), ("b", "o"));
    m.insert("bu".to_owned(), ("b", "u"));
}

/// Syllables of the initial `c`.
pub open spec fn syllables_c(
    m: Map<Seq<char>, (&'static str, &'static str)>,
) -> Map<Seq<char>, (&'static str, &'static str)> {
    m
        .insert("ca"@, ("c", "a")).insert("cai"@, ("c", "ai"))
        .insert("can"@, ("c", "an")).insert("cang"@, ("c", "ang"))
        .insert("cao"@, ("c", "ao")).insert("ce"@, ("c", "e"))
        .insert("cei"@, ("c", "e")).insert("cen"@, ("c", "en"))
        .insert("ceng"@, ("c", "eng")).insert("ci"@, ("c", "ir"))
        .insert("cong"@, ("c", "ong")).insert("cou"@, ("c", "ou"))
        .insert("cu"@, ("c", "u")).insert("cuan"@, ("c", "uan"))
        .insert("cui"@, ("c", "ui")).insert("cun"@, ("c", "un"))
        .insert("cuo"@, ("c", "uo"))
}

fn add_c(m: &mut StringHashMap<(&'static str, &'static str)>)
    ensures
        final(m)@ == syllables_c(old(m)@),
{
    m.insert("ca".to_owned(), ("c", "a"));
    m.insert("cai".to_owned(), ("c", "ai"));
    m.insert("can".to_owned(), ("c", "an"));
    m.insert("cang".to_owned(), ("c", "ang"));
    m.insert("cao".to_owned(), ("c", "ao"));
    m.insert("ce".to_owned(), ("c", "e"));
    m.insert("cei".to_owned(), ("c", "e"));
    m.insert("cen".to_owned(), ("c", "en"));
    m.insert("ceng".to_owned(), ("c", "eng"));
    m.insert("ci".to_owned(), ("c", "ir"));
    m.insert("cong".to_owned(), ("c", "ong"));
    m.insert("cou".to_owned(), ("c", "ou"));
    m.insert("cu".to_owned(), ("c", "u"));
    m.insert("cuan".to_owned(), ("c", "uan"));
    m.insert("cui".to_owned(), ("c", "ui"));
    m.insert("cun".to_owned(), ("c", "un"));
    m.insert("cuo".to_owned(), ("c", "uo"));
}

/// Syllables of the initial `d`.
pub open spec fn syllables_d(
    m: Map<Seq<char>, (&'static str, &'static str)>,
) -> Map<Seq<char>, (&'static str, &'static str)> {
    m
        .insert("da"@, ("d", "a")).insert("dai"@, ("d", "ai"))
        .insert("dan"@, ("d", "an")).insert("dang"@, ("d", "ang"))
        .insert("dao"@, ("d", "ao")).insert("de"@, ("d", "e"))
        .insert("dei"@, ("d", "e")).insert("den"@, ("d", "en"))
        .insert("deng"@, ("d", "eng")).insert("di"@, ("d", "i"))
        .insert("dia"@, ("d", "ia")).insert("dian"@, ("d", "ian"))
        .insert("diao"@, ("d", "iao")).insert("die"@, ("d", "ie"))
        .insert("ding"@, ("d", "ing")).insert("diu"@, ("d", "iu"))
        .insert("dong"@, ("d", "ong")).insert("dou"@, ("d", "ou"))
        .insert("du"@, ("d", "u")).insert("duan"@, ("d", "uan"))
        .insert("dui"@, ("d", "ui")).insert("dun"@, ("d", "un"))
        .insert("duo"@, ("d", "uo"))
}

fn add_d(m: &mut StringHashMap<(&'static str, &'static str)>)
    ensures
        final(m)@ == syllables_d(old(m)@),
{
    m.insert("da".to_owned(), ("d", "a"));
    m.insert("dai".to_owned(), ("d", "ai"));
    m.insert("dan".to_owned(), ("d", "an"));
    m.insert("dang".to_owned(), ("d", "ang"));
    m.insert("dao".to_owned(), ("d", "ao"));
    m.insert("de".to_owned(), ("d", "e"));
    m.insert("dei".to_owned(), ("d", "e"));
    m.insert("den".to_owned(), ("d", "en"));
    m.insert("deng".to_owned(), ("d", "eng"));
    m.insert("di".to_owned(), ("d", "i"));
    m.insert("dia".to_owned(), ("d", "ia"));
    m.insert("dian".to_owned(), ("d", "ian"));
    m.insert("diao".to_owned(), ("d", "iao"));
    m.insert("die".to_owned(), ("d", "ie"));
    m.insert("ding".to_owned(), ("d", "ing"));
    m.insert("diu".to_owned(), ("d", "iu"));
    m.insert("dong".to_owned(), ("d", "ong"));
    m.insert("dou".to_owned(), ("d", "ou"));
    m.insert("du".to_owned(), ("d", "u"));
    m.insert("duan".to_owned(), ("d", "uan"));
    m.insert("dui".to_owned(), ("d", "ui"));
    m.insert("dun".to_owned(), ("d", "un"));
    m.insert("duo".to_owned(), ("d", "uo"));
}

/// Syllables of the initial `f`.
pub open spec fn syllables_f(
    m: Map<Seq<char>, (&'static str, &'static str)>,
) -> Map<Seq<char>, (&'static str, &'static str)> {
    m
        .insert("fa"@, ("f", "a")).insert("fan"@, ("f", "an"))
        .insert("fang"@, ("f", "ang")).insert("fei"@, ("f", "e"))
        .insert("fen"@, ("f", "en")).insert("feng"@, ("f", "eng"))
        .insert("fo"@, ("f", "o")).insert("fou"@, ("f", "ou"))
        .insert("fu"@, ("f", "u"))
}

fn add_f(m: &mut StringHashMap<(&'static str, &'static str)>)
    ensures
        final(m)@ == syllables_f(old(m)@),
{
    m.insert("fa".to_owned(), ("f", "a"));
    m.insert("fan".to_owned(), ("f", "an"));
    m.insert("fang".to_owned(), ("f", "ang"));
    m.insert("fei".to_owned(), ("f", "e"));
    m.insert("fen".to_owned(), ("f", "en"));
    m.insert("feng".to_owned(), ("f", "eng"));
    m.insert("fo".to_owned(), ("f", "o"));
    m.insert("fou".to_owned(), ("f", "ou"));
    m.insert("fu".to_owned(), ("f", "u"));
}

/// Syllables of the initial `g`.
pub open spec fn syllables_g(
    m: Map<Seq<char>, (&'static str, &'static str)>,
) -> Map<Seq<char>, (&'static str, &'static str)> {
    m
        .insert("ga"@, ("g", "a")).insert("gai"@, ("g", "ai"))
        .insert("gan"@, ("g", "an")).insert("gang"@, ("g", "ang"))
        .insert("gao"@, ("g", "ao")).insert("ge"@, ("g", "e"))
        .insert("gei"@, ("g", "e")).insert("gen"@, ("g", "en"))
        .insert("geng"@, ("g", "eng")).insert("gong"@, ("g", "ong"))
        .insert("gou"@, ("g", "ou")).insert("gu"@, ("g", "u"))
        .insert("gua"@, ("g", "ua")).insert("guai"@, ("g", "uai"))
        .insert("guan"@, ("g", "uan")).insert("guang"@, ("g", "uang"))
        .insert("gui"@, ("g", "ui")).insert("gun"@, ("g", "un"))
        .insert("guo"@, ("g", "uo"))
}

fn add_g(m: &mut StringHashMap<(&'static str, &'static str)>)
    ensures
        final(m)@ == syllables_g(old(m)@),
{
    m.insert("ga".to_owned(), ("g", "a"));
    m.insert("gai".to_owned(), ("g", "ai"));
    m.insert("gan".to_owned(), ("g", "an"));
    m.insert("gang".to_owned(), ("g", "ang"));
    m.insert("gao".to_owned(), ("g", "ao"));
    m.insert("ge".to_owned(), ("g", "e"));
    m.insert("gei".to_owned(), ("g", "e"));
    m.insert("gen".to_owned(), ("g", "en"));
    m.insert("geng".to_owned(), ("g", "eng"));
    m.insert("gong".to_owned(), ("g", "ong"));
    m.insert("gou".to_owned(), ("g", "ou"));
    m.insert("gu".to_owned(), ("g", "u"));
    m.insert("gua".to_owned(), ("g", "ua"));
    m.insert("guai".to_owned(), ("g", "uai"));
    m.insert("guan".to_owned(), ("g", "uan"));
    m.insert("guang".to_owned(), ("g", "uang"));
    m.insert("gui".to_owned(), ("g", "ui"));
    m.insert("gun".to_owned(), ("g", "un"));
    m.insert("guo".to_owned(), ("g", "uo"));
}

/// Syllables of the initial `h`.
pub open spec fn syllables_h(
    m: Map<Seq<char>, (&'static str, &'static str)>,
) -> Map<Seq<char>, (&'static str, &'static str)> {
    m
        .insert("ha"@, ("h", "a")).insert("hai"@, ("h", "ai"))
        .insert("han"@, ("h", "an")).insert("hang"@, ("h", "ang"))
        .insert("hao"@, ("h", "ao")).insert("he"@, ("h", "e"))
        .insert("hei"@, ("h", "e")).insert("hen"@, ("h", "en"))
        .insert("heng"@, ("h", "eng")).insert("hong"@, ("h", "ong"))
        .insert("hou"@, ("h", "ou")).insert("hu"@, ("h", "u"))
        .insert("hua"@, ("h", "ua")).insert("huai"@, ("h", "uai"))
        .insert("huan"@, ("h", "uan")).insert("huang"@, ("h", "uang"))
        .insert("hui"@, ("h", "ui")).insert("hun"@, ("h", "un"))
        .insert("huo"@, ("h", "uo"))
}

fn add_h(m: &mut StringHashMap<(&'static str, &'static str)>)
    ensures
        final(m)@ == syllables_h(old(m)@),
{
    m.insert("ha".to_owned(), ("h", "a"));
    m.insert("hai".to_owned(), ("h", "ai"));
    m.insert("han".to_owned(), ("h", "an"));
    m.insert("hang".to_owned(), ("h", "ang"));
    m.insert("hao".to_owned(), ("h", "ao"));
    m.insert("he".to_owned(), ("h", "e"));
    m.insert("hei".to_owned(), ("h", "e"));
    m.insert("hen".to_owned(), ("h", "en"));
    m.insert("heng".to_owned(), ("h", "eng"));
    m.insert("hong".to_owned(), ("h", "ong"));
    m.insert("hou".to_owned(), ("h", "ou"));
    m.insert("hu".to_owned(), ("h", "u"));
    m.insert("hua".to_owned(), ("h", "ua"));
    m.insert("huai".to_owned(), ("h", "uai"));
    m.insert("huan".to_owned(), ("h", "uan"));
    m.insert("huang".to_owned(), ("h", "uang"));
    m.insert("hui".to_owned(), ("h", "ui"));
    m.insert("hun".to_owned(), ("h", "un"));
    m.insert("huo".to_owned(), ("h", "uo"));
}

/// Syllables of the initial `j`.
pub open spec fn syllables_j(
    m: Map<Seq<char>, (&'static str, &'static str)>,
) -> Map<Seq<char>, (&'static str, &'static str)> {
    m
        .insert("ji"@, ("j", "i")).insert("jia"@, ("j", "ia"))
        .insert("jian"@, ("j", "ian")).insert("jiang"@, ("j", "iang"))
        .insert("jiao"@, ("j", "iao")).insert("jie"@, ("j", "ie"))
        .insert("jin"@, ("j", "in")).insert("jing"@, ("j", "ing"))
        .insert("jiong"@, ("j", "iong")).insert("jiu"@, ("j", "iu"))
        .insert("ju"@, ("j", "v")).insert("juan"@, ("j", "van"))
        .insert("jue"@, ("j", "ve")).insert("jun"@, ("j", "vn"))
}

fn add_j(m: &mut StringHashMap<(&'static str, &'static str)>)
    ensures
        final(m)@ == syllables_j(old(m)@),
{
    m.insert("ji".to_owned(), ("j", "i"));
    m.insert("jia".to_owned(), ("j", "ia"));
    m.insert("jian".to_owned(), ("j", "ian"));
    m.insert("jiang".to_owned(), ("j", "iang"));
    m.insert("jiao".to_owned(), ("j", "iao"));
    m.insert("jie".to_owned(), ("j", "ie"));
    m.insert("jin".to_owned(), ("j", "in"));
    m.insert("jing".to_owned(), ("j", "ing"));
    m.insert("jiong".to_owned(), ("j", "iong"));
    m.insert("jiu".to_owned(), ("j", "iu"));
    m.insert("ju".to_owned(), ("j", "v"));
    m.insert("juan".to_owned(), ("j", "van"));
    m.insert("jue".to_owned(), ("j", "ve"));
    m.insert("jun".to_owned(), ("j", "vn"));
}

/// Syllables of the initial `k`.
pub open spec fn syllables_k(
    m: Map<Seq<char>, (&'static str, &'static str)>,
) -> Map<Seq<char>, (&'static str, &'static str)> {
    m
        .insert("ka"@, ("k", "a")).insert("kai"@, ("k", "ai"))
        .insert("kan"@, ("k", "an")).insert("kang"@, ("k", "ang"))
        .insert("kao"@, ("k", "ao")).insert("ke"@, ("k", "e"))
        .insert("kei"@, ("k", "e")).insert("ken"@, ("k", "en"))
        .insert("keng"@, ("k", "eng")).insert("kong"@, ("k", "ong"))
        .insert("kou"@, ("k", "ou")).insert("ku"@, ("k", "u"))
        .insert("kua"@, ("k", "ua")).insert("kuai"@, ("k", "uai"))
        .insert("kuan"@, ("k", "uan")).insert("kuang"@, ("k", "uang"))
        .insert("kui"@, ("k", "ui")).insert("kun"@, ("k", "un"))
        .insert("kuo"@, ("k", "uo"))
}

fn add_k(m: &mut StringHashMap<(&'static str, &'static str)>)
    ensures
        final(m)@ == syllables_k(old(m)@),
{
    m.insert("ka".to_owned(), ("k", "a"));
    m.insert("kai".to_owned(), ("k", "ai"));
    m.insert("kan".to_owned(), ("k", "an"));
    m.insert("kang".to_owned(), ("k", "ang"));
    m.insert("kao".to_owned(), ("k", "ao"));
    m.insert("ke".to_owned(), ("k", "e"));
    m.insert("kei".to_owned(), ("k", "e"));
    m.insert("ken".to_owned(), ("k", "en"));
    m.insert("keng".to_owned(), ("k", "eng"));
    m.insert("kong".to_owned(), ("k", "ong"));
    m.insert("kou".to_owned(), ("k", "ou"));
    m.insert("ku".to_owned(), ("k", "u"));
    m.insert("kua".to_owned(), ("k", "ua"));
    m.insert("kuai".to_owned(), ("k", "uai"));
    m.insert("kuan".to_owned(), ("k", "uan"));
    m.insert("kuang".to_owned(), ("k", "uang"));
    m.insert("kui".to_owned(), ("k", "ui"));
    m.insert("kun".to_owned(), ("k", "un"));
    m.insert("kuo".to_owned(), ("k", "uo"));
}

/// Syllables of the initial `l`.
pub open spec fn syllables_l(
    m: Map<Seq<char>, (&'static str, &'static str)>,
) -> Map<Seq<char>, (&'static str, &'static str)> {
    m
        .insert("la"@, ("l", "a")).insert("lai"@, ("l", "ai"))
        .insert("lan"@, ("l", "an")).insert("lang"@, ("l", "ang"))
        .insert("lao"@, ("l", "ao")).insert("le"@, ("l", "e"))
        .insert("lei"@, ("l", "e")).insert("leng"@, ("l", "eng"))
        .insert("li"@, ("l", "i")).insert("lia"@, ("l", "ia"))
        .insert("lian"@, ("l", "ian")).insert("liang"@, ("l", "iang"))
        .insert("liao"@, ("l", "iao")).insert("lie"@, ("l", "ie"))
        .insert("lin"@, ("l", "in")).insert("ling"@, ("l", "ing"))
        .insert("liu"@, ("l", "iu")).insert("long"@, ("l", "ong"))
        .insert("lou"@, ("l", "ou")).insert("lu"@, ("l", "u"))
        .insert("lv"@, ("l", "v")).insert("luan"@, ("l", "uan"))
        .insert("lve"@, ("l", "ve")).insert("lue"@, ("l", "ve"))
        .insert("lun"@, ("l", "un")).insert("luo"@, ("l", "uo"))
}

fn add_l(m: &mut StringHashMap<(&'static str, &'static str)>)
    ensures
        final(m)@ == syllables_l(old(m)@),
{
    m.insert("la".to_owned(), ("l", "a"));
    m.insert("lai".to_owned(), ("l", "ai"));
    m.insert("lan".to_owned(), ("l", "an"));
    m.insert("lang".to_owned(), ("l", "ang"));
    m.insert("lao".to_owned(), ("l", "ao"));
    m.insert("le".to_owned(), ("l", "e"));
    m.insert("lei".to_owned(), ("l", "e"));
    m.insert("leng".to_owned(), ("l", "eng"));
    m.insert("li".to_owned(), ("l", "i"));
    m.insert("lia".to_owned(), ("l", "ia"));
    m.insert("lian".to_owned(), ("l", "ian"));
    m.insert("liang".to_owned(), ("l", "iang"));
    m.insert("liao".to_owned(), ("l", "iao"));
    m.insert("lie".to_owned(), ("l", "ie"));
    m.insert("lin".to_owned(), ("l", "in"));
    m.insert("ling".to_owned(), ("l", "ing"));
    m.insert("liu".to_owned(), ("l", "iu"));
    m.insert("long".to_owned(), ("l", "ong"));
    m.insert("lou".to_owned(), ("l", "ou"));
    m.insert("lu".to_owned(), ("l", "u"));
    m.insert("lv".to_owned(), ("l", "v"));
    m.insert("luan".to_owned(), ("l", "uan"));
    m.insert("lve".to_owned(), ("l", "ve"));
    m.insert("lue".to_owned(), ("l", "ve"));
    m.insert("lun".to_owned(), ("l", "un"));
    m.insert("luo".to_owned(), ("l", "uo"));
}

/// Syllables of the initial `m`.
pub open spec fn syllables_m(
    m: Map<Seq<char>, (&'static str, &'static str)>,
) -> Map<Seq<char>, (&'static str, &'static str)> {
    m
        .insert("ma"@, ("m", "a")).insert("mai"@, ("m", "ai"))
        .insert("man"@, ("m", "an")).insert("mang"@, ("m", "ang"))
        .insert("mao"@, ("m", "ao")).insert("me"@, ("m", "e"))
        .insert("mei"@, ("m", "e")).insert("men"@, ("m", "en"))
        .insert("meng"@, ("m", "eng")).insert("mi"@, ("m", "i"))
        .insert("mian"@, ("m", "ian")).insert("miao"@, ("m", "iao"))
        .insert("mie"@, ("m", "ie")).insert("min"@, ("m", "in"))
        .insert("ming"@, ("m", "ing")).insert("miu"@, ("m", "iu"))
        .insert("mo"@, ("m", "o")).insert("mou"@, ("m", "ou"))
        .insert("mu"@, ("m", "u"))
}

fn add_m(m: &mut StringHashMap<(&'static str, &'static str)>)
    ensures
        final(m)@ == syllables_m(old(m)@),
{
    m.insert("ma".to_owned(), ("m", "a"));
    m.insert("mai".to_owned(), ("m", "ai"));
    m.insert("man".to_owned(), ("m", "an"));
    m.insert("mang".to_owned(), ("m", "ang"));
    m.insert("mao".to_owned(), ("m", "ao"));
    m.insert("me".to_owned(), ("m", "e"));
    m.insert("mei".to_owned(), ("m", "e"));
    m.insert("men".to_owned(), ("m", "en"));
    m.insert("meng".to_owned(), ("m", "eng"));
    m.insert("mi".to_owned(), ("m", "i"));
    m.insert("mian".to_owned(), ("m", "ian"));
    m.insert("miao".to_owned(), ("m", "iao"));
    m.insert("mie".to_owned(), ("m", "ie"));
    m.insert("min".to_owned(), ("m", "in"));
    m.insert("ming".to_owned(), ("m", "ing"));
    m.insert("miu".to_owned(), ("m", "iu"));
    m.insert("mo".to_owned(), ("m", "o"));
    m.insert("mou".to_owned(), ("m", "ou"));
    m.insert("mu".to_owned(), ("m", "u"));
}

/// Syllables of the initial `n`.
pub open spec fn syllables_n(
    m: Map<Seq<char>, (&'static str, &'static str)>,
) -> Map<Seq<char>, (&'static str, &'static str)> {
    m
        .insert("na"@, ("n", "a")).insert("nai"@, ("n", "ai"))
        .insert("nan"@, ("n", "an")).insert("nang"@, ("n", "ang"))
        .insert("nao"@, ("n", "ao")).insert("ne"@, ("n", "e"))
        .insert("nei"@, ("n", "e")).insert("nen"@, ("n", "en"))
        .insert("neng"@, ("n", "eng")).insert("ni"@, ("n", "i"))
        .insert("nian"@, ("n", "ian")).insert("niang"@, ("n", "iang"))
        .insert("niao"@, ("n", "iao")).insert("nie"@, ("n", "ie"))
        .insert("nin"@, ("n", "in")).insert("ning"@, ("n", "ing"))
        .insert("niu"@, ("n", "iu")).insert("nong"@, ("n", "ong"))
        .insert("nou"@, ("n", "ou")).insert("nu"@, ("n", "u"))
        .insert("nv"@, ("n", "v")).insert("nuan"@, ("n", "uan"))
        .insert("nve"@, ("n", "ve")).insert("nue"@, ("n", "ve"))
        .insert("nun"@, ("n", "un")).insert("nuo"@, ("n", "uo"))
}

fn add_n(m: &mut StringHashMap<(&'static str, &'static str)>)
    ensures
        final(m)@ == syllables_n(old(m)@),
{
    m.insert("na".to_owned(), ("n", "a"));
    m.insert("nai".to_owned(), ("n", "ai"));
    m.insert("nan".to_owned(), ("n", "an"));
    m.insert("nang".to_owned(), ("n", "ang"));
    m.insert("nao".to_owned(), ("n", "ao"));
    m.insert("ne".to_owned(), ("n", "e"));
    m.insert("nei".to_owned(), ("n", "e"));
    m.insert("nen".to_owned(), ("n", "en"));
    m.insert("neng".to_owned(), ("n", "eng"));
    m.insert("ni".to_owned(), ("n", "i"));
    m.insert("nian".to_owned(), ("n", "ian"));
    m.insert("niang".to_owned(), ("n", "iang"));
    m.insert("niao".to_owned(), ("n", "iao"));
    m.insert("nie".to_owned(), ("n", "ie"));
    m.insert("nin".to_owned(), ("n", "in"));
    m.insert("ning".to_owned(), ("n", "ing"));
    m.insert("niu".to_owned(), ("n", "iu"));
    m.insert("nong".to_owned(), ("n", "ong"));
    m.insert("nou".to_owned(), ("n", "ou"));
    m.insert("nu".to_owned(), ("n", "u"));
    m.insert("nv".to_owned(), ("n", "v"));
    m.insert("nuan".to_owned(), ("n", "uan"));
    m.insert("nve".to_owned(), ("n", "ve"));
    m.insert("nue".to_owned(), ("n", "ve"));
    m.insert("nun".to_owned(), ("n", "un"));
    m.insert("nuo".to_owned(), ("n", "uo"));
}

/// Syllables of the initial `p`.
pub open spec fn syllables_p(
    m: Map<Seq<char>, (&'static str, &'static str)>,
) -> Map<Seq<char>, (&'static str, &'static str)> {
    m
        .insert("pa"@, ("p", "a")).insert("pai"@, ("p", "ai"))
        .insert("pan"@, ("p", "an")).insert("pang"@, ("p", "ang"))
        .insert("pao"@, ("p", "ao")).insert("pei"@, ("p", "e"))
        .insert("pen"@, ("p", "en")).insert("peng"@, ("p", "eng"))
        .insert("pi"@, ("p", "i")).insert("pian"@, ("p", "ian"))
        .insert("piao"@, ("p", "iao")).insert("pie"@, ("p", "ie"))
        .insert("pin"@, ("p", "in")).insert("ping"@, ("p", "ing"))
        .insert("po"@, ("p", "o")).insert("pou"@, ("p", "ou"))
        .insert("pu"@, ("p", "u"))
}

fn add_p(m: &mut StringHashMap<(&'static str, &'static str)>)
    ensures
        final(m)@ == syllables_p(old(m)@),
{
    m.insert("pa".to_owned(), ("p", "a"));
    m.insert("pai".to_owned(), ("p", "ai"));
    m.insert("pan".to_owned(), ("p", "an"));
    m.insert("pang".to_owned(), ("p", "ang"));
    m.insert("pao".to_owned(), ("p", "ao"));
    m.insert("pei".to_owned(), ("p", "e"));
    m.insert("pen".to_owned(), ("p", "en"));
    m.insert("peng".to_owned(), ("p", "eng"));
    m.insert("pi".to_owned(), ("p", "i"));
    m.insert("pian".to_owned(), ("p", "ian"));
    m.insert("piao".to_owned(), ("p", "iao"));
    m.insert("pie".to_owned(), ("p", "ie"));
    m.insert("pin".to_owned(), ("p", "in"));
    m.insert("ping".to_owned(), ("p", "ing"));
    m.insert("po".to_owned(), ("p", "o"));
    m.insert("pou".to_owned(), ("p", "ou"));
    m.insert("pu".to_owned(), ("p", "u"));
}

/// Syllables of the initial `q`.
pub open spec fn syllables_q(
    m: Map<Seq<char>, (&'static str, &'static str)>,
) -> Map<Seq<char>, (&'static str, &'static str)> {
    m
        .insert("qi"@, ("q", "i")).insert("qia"@, ("q", "ia"))
        .insert("qian"@, ("q", "ian")).insert("qiang"@, ("q", "iang"))
        .insert("qiao"@, ("q", "iao")).insert("qie"@, ("q", "ie"))
        .insert("qin"@, ("q", "in")).insert("qing"@, ("q", "ing"))
        .insert("qiong"@, ("q", "iong")).insert("qiu"@, ("q", "iu"))
        .insert("qu"@, ("q", "v")).insert("quan"@, ("q", "van"))
        .insert("que"@, ("q", "ve")).insert("qun"@, ("q", "vn"))
}

fn add_q(m: &mut StringHashMap<(&'static str, &'static str)>)
    ensures
        final(m)@ == syllables_q(old(m)@),
{
    m.insert("qi".to_owned(), ("q", "i"));
    m.insert("qia".to_owned(), ("q", "ia"));
    m.insert("qian".to_owned(), ("q", "ian"));
    m.insert("qiang".to_owned(), ("q", "iang"));
    m.insert("qiao".to_owned(), ("q", "iao"));
    m.insert("qie".to_owned(), ("q", "ie"));
    m.insert("qin".to_owned(), ("q", "in"));
    m.insert("qing".to_owned(), ("q", "ing"));
    m.insert("qiong".to_owned(), ("q", "iong"));
    m.insert("qiu".to_owned(), ("q", "iu"));
    m.insert("qu".to_owned(), ("q", "v"));
    m.insert("quan".to_owned(), ("q", "van"));
    m.insert("que".to_owned(), ("q", "ve"));
    m.insert("qun".to_owned(), ("q", "vn"));
}

/// Syllables of the initial `r`.
pub open spec fn syllables_r(
    m: Map<Seq<char>, (&'static str, &'static str)>,
) -> Map<Seq<char>, (&'static str, &'static str)> {
    m
        .insert("ran"@, ("r", "an")).insert("rang"@, ("r", "ang"))
        .insert("rao"@, ("r", "ao")).insert("re"@, ("r", "e"))
        .insert("ren"@, ("r", "en")).insert("reng"@, ("r", "eng"))
        .insert("ri"@, ("r", "ir")).insert("rong"@, ("r", "ong"))
        .insert("rou"@, ("r", "ou")).insert("ru"@, ("r", "u"))
        .insert("ruan"@, ("r", "uan")).insert("rui"@, ("r", "ui"))
        .insert("run"@, ("r", "un")).insert("ruo"@, ("r", "uo"))
}

fn add_r(m: &mut StringHashMap<(&'static str, &'static str)>)
    ensures
        final(m)@ == syllables_r(old(m)@),
{
    m.insert("ran".to_owned(), ("r", "an"));
    m.insert("rang".to_owned(), ("r", "ang"));
    m.insert("rao".to_owned(), ("r", "ao"));
    m.insert("re".to_owned(), ("r", "e"));
    m.insert("ren".to_owned(), ("r", "en"));
    m.insert("reng".to_owned(), ("r", "eng"));
    m.insert("ri".to_owned(), ("r", "ir"));
    m.insert("rong".to_owned(), ("r", "ong"));
    m.insert("rou".to_owned(), ("r", "ou"));
    m.insert("ru".to_owned(), ("r", "u"));
    m.insert("ruan".to_owned(), ("r", "uan"));
    m.insert("rui".to_owned(), ("r", "ui"));
    m.insert("run".to_owned(), ("r", "un"));
    m.insert("ruo".to_owned(), ("r", "uo"));
}

/// Syllables of the initial `s`.
pub open spec fn syllables_s(
    m: Map<Seq<char>, (&'static str, &'static str)>,
) -> Map<Seq<char>, (&'static str, &'static str)> {
    m
        .insert("sa"@, ("s", "a")).insert("sai"@, ("s", "ai"))
        .insert("san"@, ("s", "an")).insert("sang"@, ("s", "ang"))
        .insert("sao"@, ("s", "ao")).insert("se"@, ("s", "e"))
        .insert("sei"@, ("s", "e")).insert("sen"@, ("s", "en"))
        .insert("seng"@, ("s", "eng")).insert("si"@, ("s", "ir"))
        .insert("song"@, ("s", "ong")).insert("sou"@, ("s", "ou"))
        .insert("su"@, ("s", "u")).insert("suan"@, ("s", "uan"))
        .insert("sui"@, ("s", "ui")).insert("sun"@, ("s", "un"))
        .insert("suo"@, ("s", "uo"))
}

fn add_s(m: &mut StringHashMap<(&'static str, &'static str)>)
    ensures
        final(m)@ == syllables_s(old(m)@),
{
    m.insert("sa".to_owned(), ("s", "a"));
    m.insert("sai".to_owned(), ("s", "ai"));
    m.insert("san".to_owned(), ("s", "an"));
    m.insert("sang".to_owned(), ("s", "ang"));
    m.insert("sao".to_owned(), ("s", "ao"));
    m.insert("se".to_owned(), ("s", "e"));
    m.insert("sei".to_owned(), ("s", "e"));
    m.insert("sen".to_owned(), ("s", "en"));
    m.insert("seng".to_owned(), ("s", "eng"));
    m.insert("si".to_owned(), ("s", "ir"));
    m.insert("song".to_owned(), ("s", "ong"));
    m.insert("sou".to_owned(), ("s", "ou"));
    m.insert("su".to_owned(), ("s", "u"));
    m.insert("suan".to_owned(), ("s", "uan"));
    m.insert("sui".to_owned(), ("s", "ui"));
    m.insert("sun".to_owned(), ("s", "un"));
    m.insert("suo".to_owned(), ("s", "uo"));
}

/// Syllables of the initial `t`.
pub open spec fn syllables_t(
    m: Map<Seq<char>, (&'static str, &'static str)>,
) -> Map<Seq<char>, (&'static str, &'static str)> {
    m
        .insert("ta"@, ("t", "a")).insert("tai"@, ("t", "ai"))
        .insert("tan"@, ("t", "an")).insert("tang"@, ("t", "ang"))
        .insert("tao"@, ("t", "ao")).insert("te"@, ("t", "e"))
        .insert("tei"@, ("t", "e")).insert("teng"@, ("t", "eng"))
        .insert("ti"@, ("t", "i")).insert("tian"@, ("t", "ian"))
        .insert("tiao"@, ("t", "iao")).insert("tie"@, ("t", "ie"))
        .insert("ting"@, ("t", "ing")).insert("tong"@, ("t", "ong"))
        .insert("tou"@, ("t", "ou")).insert("tu"@, ("t", "u"))
        .insert("tuan"@, ("t", "uan")).insert("tui"@, ("t", "ui"))
        .insert("tun"@, ("t", "un")).insert("tuo"@, ("t", "uo"))
}

fn add_t(m: &mut StringHashMap<(&'static str, &'static str)>)
    ensures
        final(m)@ == syllables_t(old(m)@),
{
    m.insert("ta".to_owned(), ("t", "a"));
    m.insert("tai".to_owned(), ("t", "ai"));
    m.insert("tan".to_owned(), ("t", "an"));
    m.insert("tang".to_owned(), ("t", "ang"));
    m.insert("tao".to_owned(), ("t", "ao"));
    m.insert("te".to_owned(), ("t", "e"));
    m.insert("tei".to_owned(), ("t", "e"));
    m.insert("teng".to_owned(), ("t", "eng"));
    m.insert("ti".to_owned(), ("t", "i"));
    m.insert("tian".to_owned(), ("t", "ian"));
    m.insert("tiao".to_owned(), ("t", "iao"));
    m.insert("tie".to_owned(), ("t", "ie"));
    m.insert("ting".to_owned(), ("t", "ing"));
    m.insert("tong".to_owned(), ("t", "ong"));
    m.insert("tou".to_owned(), ("t", "ou"));
    m.insert("tu".to_owned(), ("t", "u"));
    m.insert("tuan".to_owned(), ("t", "uan"));
    m.insert("tui".to_owned(), ("t", "ui"));
    m.insert("tun".to_owned(), ("t", "un"));
    m.insert("tuo".to_owned(), ("t", "uo"));
}

/// Syllables of the initial `w`.
pub open spec fn syllables_w(
    m: Map<Seq<char>, (&'static str, &'static str)>,
) -> Map<Seq<char>, (&'static str, &'static str)> {
    m
        .insert("wa"@, ("w", "a")).insert("wai"@, ("w", "ai"))
        .insert("wan"@, ("w", "an")).insert("wang"@, ("w", "ang"))
        .insert("wei"@, ("w", "e")).insert("wen"@, ("w", "en"))
        .insert("weng"@, ("w", "eng")).insert("wo"@, ("w", "o"))
        .insert("wu"@, ("w", "u"))
}

fn add_w(m: &mut StringHashMap<(&'static str, &'static str)>)
    ensures
        final(m)@ == syllables_w(old(m)@),
{
    m.insert("wa".to_owned(), ("w", "a"));
    m.insert("wai".to_owned(), ("w", "ai"));
    m.insert("wan".to_owned(), ("w", "an"));
    m.insert("wang".to_owned(), ("w", "ang"));
    m.insert("wei".to_owned(), ("w", "e"));
    m.insert("wen".to_owned(), ("w", "en"));
    m.insert("weng".to_owned(), ("w", "eng"));
    m.insert("wo".to_owned(), ("w", "o"));
    m.insert("wu".to_owned(), ("w", "u"));
}

/// Syllables of the initial `x`.
pub open spec fn syllables_x(
    m: Map<Seq<char>, (&'static str, &'static str)>,
) -> Map<Seq<char>, (&'static str, &'static str)> {
    m
        .insert("xi"@, ("x", "i")).insert("xia"@, ("x", "ia"))
        .insert("xian"@, ("x", "ian")).insert("xiang"@, ("x", "iang"))
        .insert("xiao"@, ("x", "iao")).insert("xie"@, ("x", "ie"))
        .insert("xin"@, ("x", "in")).insert("xing"@, ("x", "ing"))
        .insert("xiong"@, ("x", "iong")).insert("xiu"@, ("x", "iu"))
        .insert("xu"@, ("x", "v")).insert("xuan"@, ("x", "van"))
        .insert("xue"@, ("x", "ve")).insert("xun"@, ("x", "vn"))
}

fn add_x(m: &mut StringHashMap<(&'static str, &'static str)>)
    ensures
        final(m)@ == syllables_x(old(m)@),
{
    m.insert("xi".to_owned(), ("x", "i"));
    m.insert("xia".to_owned(), ("x", "ia"));
    m.insert("xian".to_owned(), ("x", "ian"));
    m.insert("xiang".to_owned(), ("x", "iang"));
    m.insert("xiao".to_owned(), ("x", "iao"));
    m.insert("xie".to_owned(), ("x", "ie"));
    m.insert("xin".to_owned(), ("x", "in"));
    m.insert("xing".to_owned(), ("x", "ing"));
    m.insert("xiong".to_owned(), ("x", "iong"));
    m.insert("xiu".to_owned(), ("x", "iu"));
    m.insert("xu".to_owned(), ("x", "v"));
    m.insert("xuan".to_owned(), ("x", "van"));
    m.insert("xue".to_owned(), ("x", "ve"));
    m.insert("xun".to_owned(), ("x", "vn"));
}

/// Syllables of the initial `y`.
pub open spec fn syllables_y(
    m: Map<Seq<char>, (&'static str, &'static str)>,
) -> Map<Seq<char>, (&'static str, &'static str)> {
    m
        .insert("ya"@, ("y", "a")).insert("yan"@, ("y", "an"))
        .insert("yang"@, ("y", "ang")).insert("yao"@, ("y", "ao"))
        .insert("ye"@, ("y", "e")).insert("yi"@, ("y", "i"))
        .insert("yin"@, ("y", "in")).insert("ying"@, ("y", "ing"))
        .insert("yong"@, ("y", "ong")).insert("you"@, ("y", "ou"))
        .insert("yu"@, ("y", "v")).insert("yuan"@, ("y", "van"))
        .insert("yue"@, ("y", "ve")).insert("yun"@, ("y", "vn"))
}

fn add_y(m: &mut StringHashMap<(&'static str, &'static str)>)
    ensures
        final(m)@ == syllables_y(old(m)@),
{
    m.insert("ya".to_owned(), ("y", "a"));
    m.insert("yan".to_owned(), ("y", "an"));
    m.insert("yang".to_owned(), ("y", "ang"));
    m.insert("yao".to_owned(), ("y", "ao"));
    m.insert("ye".to_owned(), ("y", "e"));
    m.insert("yi".to_owned(), ("y", "i"));
    m.insert("yin".to_owned(), ("y", "in"));
    m.insert("ying".to_owned(), ("y", "ing"));
    m.insert("yong".to_owned(), ("y", "ong"));
    m.insert("you".to_owned(), ("y", "ou"));
    m.insert("yu".to_owned(), ("y", "v"));
    m.insert("yuan".to_owned(), ("y", "van"));
    m.insert("yue".to_owned(), ("y", "ve"));
    m.insert("yun".to_owned(), ("y", "vn"));
}

/// Syllables of the initial `z`.
pub open spec fn syllables_z(
    m: Map<Seq<char>, (&'static str, &'static str)>,
) -> Map<Seq<char>, (&'static str, &'static str)> {
    m
        .insert("za"@, ("z", "a")).insert("zai"@, ("z", "ai"))
        .insert("zan"@, ("z", "an")).insert("zang"@, ("z", "ang"))
        .insert("zao"@, ("z", "ao")).insert("ze"@, ("z", "e"))
        .insert("zei"@, ("z", "e")).insert("zen"@, ("z", "en"))
        .insert("zeng"@, ("z", "eng")).insert("zi"@, ("z", "ir"))
        .insert("zong"@, ("z", "ong")).insert("zou"@, ("z", "ou"))
        .insert("zu"@, ("z", "u")).insert("zuan"@, ("z", "uan"))
        .insert("zui"@, ("z", "ui")).insert("zun"@, ("z", "un"))
        .insert("zuo"@, ("z", "uo"))
}

fn add_z(m: &mut StringHashMap<(&'static str, &'static str)>)
    ensures
        final(m)@ == syllables_z(old(m)@),
{
    m.insert("za".to_owned(), ("z", "a"));
    m.insert("zai".to_owned(), ("z", "ai"));
    m.insert("zan".to_owned(), ("z", "an"));
    m.insert("zang".to_owned(), ("z", "ang"));
    m.insert("zao".to_owned(), ("z", "ao"));
    m.insert("ze".to_owned(), ("z", "e"));
    m.insert("zei".to_owned(), ("z", "e"));
    m.insert("zen".to_owned(), ("z", "en"));
    m.insert("zeng".to_owned(), ("z", "eng"));
    m.insert("zi".to_owned(), ("z", "ir"));
    m.insert("zong".to_owned(), ("z", "ong"));
    m.insert("zou".to_owned(), ("z", "ou"));
    m.insert("zu".to_owned(), ("z", "u"));
    m.insert("zuan".to_owned(), ("z", "uan"));
    m.insert("zui".to_owned(), ("z", "ui"));
    m.insert("zun".to_owned(), ("z", "un"));
    m.insert("zuo".to_owned(), ("z", "uo"));
}

/// Syllables of the initial `zh`.
pub open spec fn syllables_zh(
    m: Map<Seq<char>, (&'static str, &'static str)>,
) -> Map<Seq<char>, (&'static str, &'static str)> {
    m
        .insert("zha"@, ("zh", "a")).insert("zhai"@, ("zh", "ai"))
        .insert("zhan"@, ("zh", "an")).insert("zhang"@, ("zh", "ang"))
        .insert("zhao"@, ("zh", "ao")).insert("zhe"@, ("zh", "e"))
        .insert("zhei"@, ("zh", "e")).insert("zhen"@, ("zh", "en"))
        .insert("zheng"@, ("zh", "eng")).insert("zhi"@, ("zh", "ir"))
        .insert("zhong"@, ("zh", "ong")).insert("zhou"@, ("zh", "ou"))
        .insert("zhu"@, ("zh", "u")).insert("zhua"@, ("zh", "ua"))
        .insert("zhuai"@, ("zh", "uai")).insert("zhuan"@, ("zh", "uan"))
        .insert("zhuang"@, ("zh", "uang")).insert("zhui"@, ("zh", "ui"))
        .insert("zhun"@, ("zh", "un")).insert("zhuo"@, ("zh", "uo"))
}

fn add_zh(m: &mut StringHashMap<(&'static str, &'static str)>)
    ensures
        final(m)@ == syllables_zh(old(m)@),
{
    m.insert("zha".to_owned(), ("zh", "a"));
    m.insert("zhai".to_owned(), ("zh", "ai"));
    m.insert("zhan".to_owned(), ("zh", "an"));
    m.insert("zhang".to_owned(), ("zh", "ang"));
    m.insert("zhao".to_owned(), ("zh", "ao"));
    m.insert("zhe".to_owned(), ("zh", "e"));
    m.insert("zhei".to_owned(), ("zh", "e"));
    m.insert("zhen".to_owned(), ("zh", "en"));
    m.insert("zheng".to_owned(), ("zh", "eng"));
    m.insert("zhi".to_owned(), ("zh", "ir"));
    m.insert("zhong".to_owned(), ("zh", "ong"));
    m.insert("zhou".to_owned(), ("zh", "ou"));
    m.insert("zhu".to_owned(), ("zh", "u"));
    m.insert("zhua".to_owned(), ("zh", "ua"));
    m.insert("zhuai".to_owned(), ("zh", "uai"));
    m.insert("zhuan".to_owned(), ("zh", "uan"));
    m.insert("zhuang".to_owned(), ("zh", "uang"));
    m.insert("zhui".to_owned(), ("zh", "ui"));
    m.insert("zhun".to_owned(), ("zh", "un"));
    m.insert("zhuo".to_owned(), ("zh", "uo"));
}

/// Syllables of the initial `ch`.
pub open spec fn syllables_ch(
    m: Map<Seq<char>, (&'static str, &'static str)>,
) -> Map<Seq<char>, (&'static str, &'static str)> {
    m
        .insert("cha"@, ("ch", "a")).insert("chai"@, ("ch", "ai"))
        .insert("chan"@, ("ch", "an")).insert("chang"@, ("ch", "ang"))
        .insert("chao"@, ("ch", "ao")).insert("che"@, ("ch", "e"))
        .insert("chen"@, ("ch", "en")).insert("cheng"@, ("ch", "eng"))
        .insert("chi"@, ("ch", "ir")).insert("chong"@, ("ch", "ong"))
        .insert("chou"@, ("ch", "ou")).insert("chu"@, ("ch", "u"))
        .insert("chua"@, ("ch", "ua")).insert("chuai"@, ("ch", "uai"))
        .insert("chuan"@, ("ch", "uan")).insert("chuang"@, ("ch", "uang"))
        .insert("chui"@, ("ch", "ui")).insert("chun"@, ("ch", "un"))
        .insert("chuo"@, ("ch", "uo"))
}

fn add_ch(m: &mut StringHashMap<(&'static str, &'static str)>)
    ensures
        final(m)@ == syllables_ch(old(m)@),
{
    m.insert("cha".to_owned(), ("ch", "a"));
    m.insert("chai".to_owned(), ("ch", "ai"));
    m.insert("chan".to_owned(), ("ch", "an"));
    m.insert("chang".to_owned(), ("ch", "ang"));
    m.insert("chao".to_owned(), ("ch", "ao"));
    m.insert("che".to_owned(), ("ch", "e"));
    m.insert("chen".to_owned(), ("ch", "en"));
    m.insert("cheng".to_owned(), ("ch", "eng"));
    m.insert("chi".to_owned(), ("ch", "ir"));
    m.insert("chong".to_owned(), ("ch", "ong"));
    m.insert("chou".to_owned(), ("ch", "ou"));
    m.insert("chu".to_owned(), ("ch", "u"));
    m.insert("chua".to_owned(), ("ch", "ua"));
    m.insert("chuai".to_owned(), ("ch", "uai"));
    m.insert("chuan".to_owned(), ("ch", "uan"));
    m.insert("chuang".to_owned(), ("ch", "uang"));
    m.insert("chui".to_owned(), ("ch", "ui"));
    m.insert("chun".to_owned(), ("ch", "un"));
    m.insert("chuo".to_owned(), ("ch", "uo"));
}

/// Syllables of the initial `sh`.
pub open spec fn syllables_sh(
    m: Map<Seq<char>, (&'static str, &'static str)>,
) -> Map<Seq<char>, (&'static str, &'static str)> {
    m
        .insert("sha"@, ("sh", "a")).insert("shai"@, ("sh", "ai"))
        .insert("shan"@, ("sh", "an")).insert("shang"@, ("sh", "ang"))
        .insert("shao"@, ("sh", "ao")).insert("she"@, ("sh", "e"))
        .insert("shei"@, ("sh", "e")).insert("shen"@, ("sh", "en"))
        .insert("sheng"@, ("sh", "eng")).insert("shi"@, ("sh", "ir"))
        .insert("shou"@, ("sh", "ou")).insert("shu"@, ("sh", "u"))
        .insert("shua"@, ("sh", "ua")).insert("shuai"@, ("sh", "uai"))
        .insert("shuan"@, ("sh", "uan")).insert("shuang"@, ("sh", "uang"))
        .insert("shui"@, ("sh", "ui")).insert("shun"@, ("sh", "un"))
        .insert("shuo"@, ("sh", "uo"))
}

fn add_sh(m: &mut StringHashMap<(&'static str, &'static str)>)
    ensures
        final(m)@ == syllables_sh(old(m)@),
{
    m.insert("sha".to_owned(), ("sh", "a"));
    m.insert("shai".to_owned(), ("sh", "ai"));
    m.insert("shan".to_owned(), ("sh", "an"));
    m.insert("shang".to_owned(), ("sh", "ang"));
    m.insert("shao".to_owned(), ("sh", "ao"));
    m.insert("she".to_owned(), ("sh", "e"));
    m.insert("shei".to_owned(), ("sh", "e"));
    m.insert("shen".to_owned(), ("sh", "en"));
    m.insert("sheng".to_owned(), ("sh", "eng"));
    m.insert("shi".to_owned(), ("sh", "ir"));
    m.insert("shou".to_owned(), ("sh", "ou"));
    m.insert("shu".to_owned(), ("sh", "u"));
    m.insert("shua".to_owned(), ("sh", "ua"));
    m.insert("shuai".to_owned(), ("sh", "uai"));
    m.insert("shuan".to_owned(), ("sh", "uan"));
    m.insert("shuang".to_owned(), ("sh", "uang"));
    m.insert("shui".to_owned(), ("sh", "ui"));
    m.insert("shun".to_owned(), ("sh", "un"));
    m.insert("shuo".to_owned(), ("sh", "uo"));
}

/// The initial and the final of each syllable, written without its tone.
pub open spec fn syllables() -> Map<Seq<char>, (&'static str, &'static str)> {
    let m = Map::<Seq<char>, (&'static str, &'static str)>::empty();
    let m = syllables_bare(m);
    let m = syllables_b(m);
    let m = syllables_c(m);
    let m = syllables_d(m);
    let m = syllables_f(m);
    let m = syllables_g(m);
    let m = syllables_h(m);
    let m = syllables_j(m);
    let m = syllables_k(m);
    let m = syllables_l(m);
    let m = syllables_m(m);
    let m = syllables_n(m);
    let m = syllables_p(m);
    let m = syllables_q(m);
    let m = syllables_r(m);
    let m = syllables_s(m);
    let m = syllables_t(m);
    let m = syllables_w(m);
    let m = syllables_x(m);
    let m = syllables_y(m);
    let m = syllables_z(m);
    let m = syllables_zh(m);
    let m = syllables_ch(m);
    let m = syllables_sh(m);
    m
}

/// The initial and the final of each syllable, written without its tone.
pub fn pinyin_split() -> (m: StringHashMap<(&'static str, &'static str)>)
    ensures
        m@ == syllables(),
{
    let mut m = StringHashMap::<(&'static str, &'static str)>::new();
    add_bare(&mut m);
    add_b(&mut m);
    add_c(&mut m);
    add_d(&mut m);
    add_f(&mut m);
    add_g(&mut m);
    add_h(&mut m);
    add_j(&mut m);
    add_k(&mut m);
    add_l(&mut m);
    add_m(&mut m);
    add_n(&mut m);
    add_p(&mut m);
    add_q(&mut m);
    add_r(&mut m);
    add_s(&mut m);
    add_t(&mut m);
    add_w(&mut m);
    add_x(&mut m);
    add_y(&mut m);
    add_z(&mut m);
    add_zh(&mut m);
    add_ch(&mut m);
    add_sh(&mut m);
    m
}

} // verus!
