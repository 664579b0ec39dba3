//! How the initials and finals of the Mandarin syllables follow from their spelling.

use crate::text_frontend::syllables::{
    syllables, syllables_b, syllables_bare, syllables_c, syllables_ch, syllables_d,
    syllables_f, syllables_g, syllables_h, syllables_j, syllables_k, syllables_l, syllables_m,
    syllables_n, syllables_p, syllables_q, syllables_r, syllables_s, syllables_sh, syllables_t,
    syllables_w, syllables_x, syllables_y, syllables_z, syllables_zh,
};
use vstd::prelude::*;

verus! {

/// How many letters of a spelling are the initial: none before a vowel, two where the second is `h`.
pub open spec fn initial_len(base: Seq<char>) -> int {
    if base[0] == 'a' || base[0] == 'e' || base[0] == 'o' {
        0
    } else if base.len() > 1 && base[1] == 'h' {
        2
    } else {
        1
    }
}

/// The final of the letters `tail` behind an initial: `ei` loses its second letter, and so do `ai`
/// and `ou` without an initial; `i` behind a sibilant has an `r`; `u` behind a palatal is `v`, as
/// it is in `ue` behind `l` and `n`; other finals are spelled as they are.
pub open spec fn final_of(initial: Seq<char>, tail: Seq<char>) -> Seq<char> {
    let c = if initial.len() > 0 {
        initial[0]
    } else {
        ' '
    };
    if tail.len() == 2 && tail[0] == 'e' && tail[1] == 'i' {
        seq!['e']
    } else if initial.len() == 0 && tail.len() == 2 && tail[0] == 'a' && tail[1] == 'i' {
        seq!['a']
    } else if initial.len() == 0 && tail.len() == 2 && tail[0] == 'o' && tail[1] == 'u' {
        seq!['o']
    } else if tail.len() == 1 && tail[0] == 'i' && (initial.len() == 2 || c == 'z' || c == 'c' || c
        == 's' || c == 'r') {
        seq!['i', 'r']
    } else if tail.len() > 0 && tail[0] == 'u' && (c == 'j' || c == 'q' || c == 'x' || c == 'y' || ((
    c == 'l' || c == 'n') && initial.len() == 1 && tail.len() == 2 && tail[1] == 'e')) {
        seq!['v'] + tail.skip(1)
    } else {
        tail
    }
}

/// Whether an initial and a final are those of a spelling.
pub open spec fn is_spelled(base: Seq<char>, parts: (&'static str, &'static str)) -> bool {
    let n = initial_len(base);
    &&& 0 <= n < base.len()
    &&& parts.0@ == base.take(n)
    &&& parts.1@ == final_of(base.take(n), base.skip(n))
}

/// Whether all syllables of a table are those of their spelling.
spec fn all_spelled(m: Map<Seq<char>, (&'static str, &'static str)>) -> bool {
    forall|base: Seq<char>| #[trigger] m.contains_key(base) ==> is_spelled(base, m[base])
}

proof fn lemma_insert(
    m: Map<Seq<char>, (&'static str, &'static str)>,
    base: Seq<char>,
    parts: (&'static str, &'static str),
)
    requires
        all_spelled(m),
        is_spelled(base, parts),
    ensures
        all_spelled(m.insert(base, parts)),
{
}

proof fn lemma_bare(m: Map<Seq<char>, (&'static str, &'static str)>)
    requires
        all_spelled(m),
    ensures
        all_spelled(syllables_bare(m)),
{
    reveal_strlit("a");
    reveal_strlit("");
    reveal_strlit("ai");
    reveal_strlit("an");
    reveal_strlit("ang");
    reveal_strlit("ao");
    reveal_strlit("e");
    reveal_strlit("ei");
    reveal_strlit("en");
    reveal_strlit("eng");
    reveal_strlit("er");
    reveal_strlit("o");
    reveal_strlit("ou");
    assert("a"@.take(0) =~= ""@);
    assert("a"@.skip(0) =~= "a"@);
    lemma_insert(m, "a"@, ("", "a"));
    let m1 = m.insert("a"@, ("", "a"));
    assert("ai"@.take(0) =~= ""@);
    assert("a"@ =~= final_of(""@, "ai"@.skip(0)));
    lemma_insert(m1, "ai"@, ("", "a"));
    let m2 = m1.insert("ai"@, ("", "a"));
    assert("an"@.take(0) =~= ""@);
    assert("an"@.skip(0) =~= "an"@);
    lemma_insert(m2, "an"@, ("", "an"));
    let m3 = m2.insert("an"@, ("", "an"));
    assert("ang"@.take(0) =~= ""@);
    assert("ang"@.skip(0) =~= "ang"@);
    lemma_insert(m3, "ang"@, ("", "ang"));
    let m4 = m3.insert("ang"@, ("", "ang"));
    assert("ao"@.take(0) =~= ""@);
    assert("ao"@.skip(0) =~= "ao"@);
    lemma_insert(m4, "ao"@, ("", "ao"));
    let m5 = m4.insert("ao"@, ("", "ao"));
    assert("e"@.take(0) =~= ""@);
    assert("e"@.skip(0) =~= "e"@);
    lemma_insert(m5, "e"@, ("", "e"));
    let m6 = m5.insert("e"@, ("", "e"));
    assert("ei"@.take(0) =~= ""@);
    assert("e"@ =~= final_of(""@, "ei"@.skip(0)));
    lemma_insert(m6, "ei"@, ("", "e"));
    let m7 = m6.insert("ei"@, ("", "e"));
    assert("en"@.take(0) =~= ""@);
    assert("en"@.skip(0) =~= "en"@);
    lemma_insert(m7, "en"@, ("", "en"));
    let m8 = m7.insert("en"@, ("", "en"));
    assert("eng"@.take(0) =~= ""@);
    assert("eng"@.skip(0) =~= "eng"@);
    lemma_insert(m8, "eng"@, ("", "eng"));
    let m9 = m8.insert("eng"@, ("", "eng"));
    assert("er"@.take(0) =~= ""@);
    assert("er"@.skip(0) =~= "er"@);
    lemma_insert(m9, "er"@, ("", "er"));
    let m10 = m9.insert("er"@, ("", "er"));
    assert("o"@.take(0) =~= ""@);
    assert("o"@.skip(0) =~= "o"@);
    lemma_insert(m10, "o"@, ("", "o"));
    let m11 = m10.insert("o"@, ("", "o"));
    assert("ou"@.take(0) =~= ""@);
    assert("o"@ =~= final_of(""@, "ou"@.skip(0)));
    lemma_insert(m11, "ou"@, ("", "o"));
    let m12 = m11.insert("ou"@, ("", "o"));
}

proof fn lemma_b(m: Map<Seq<char>, (&'static str, &'static str)>)
    requires
        all_spelled(m),
    ensures
        all_spelled(syllables_b(m)),
{
    reveal_strlit("ba");
    reveal_strlit("b");
    reveal_strlit("a");
    reveal_strlit("bai");
    reveal_strlit("ai");
    reveal_strlit("ban");
    reveal_strlit("an");
    reveal_strlit("bang");
    reveal_strlit("ang");
    reveal_strlit("bao");
    reveal_strlit("ao");
    reveal_strlit("bei");
    reveal_strlit("e");
    reveal_strlit("ben");
    reveal_strlit("en");
    reveal_strlit("beng");
    reveal_strlit("eng");
    reveal_strlit("bi");
    reveal_strlit("i");
    reveal_strlit("bian");
    reveal_strlit("ian");
    reveal_strlit("biao");
    reveal_strlit("iao");
    reveal_strlit("bie");
    reveal_strlit("ie");
    reveal_strlit("bin");
    reveal_strlit("in");
    reveal_strlit("bing");
    reveal_strlit("ing");
    reveal_strlit("bo");
    reveal_strlit("o");
    reveal_strlit("bu");
    reveal_strlit("u");
    assert("ba"@.take(1) =~= "b"@);
    assert("ba"@.skip(1) =~= "a"@);
    lemma_insert(m, "ba"@, ("b", "a"));
    let m1 = m.insert("ba"@, ("b", "a"));
    assert("bai"@.take(1) =~= "b"@);
    assert("bai"@.skip(1) =~= "ai"@);
    lemma_insert(m1, "bai"@, ("b", "ai"));
    let m2 = m1.insert("bai"@, ("b", "ai"));
    assert("ban"@.take(1) =~= "b"@);
    assert("ban"@.skip(1) =~= "an"@);
    lemma_insert(m2, "ban"@, ("b", "an"));
    let m3 = m2.insert("ban"@, ("b", "an"));
    assert("bang"@.take(1) =~= "b"@);
    assert("bang"@.skip(1) =~= "ang"@);
    lemma_insert(m3, "bang"@, ("b", "ang"));
    let m4 = m3.insert("bang"@, ("b", "ang"));
    assert("bao"@.take(1) =~= "b"@);
    assert("bao"@.skip(1) =~= "ao"@);
    lemma_insert(m4, "bao"@, ("b", "ao"));
    let m5 = m4.insert("bao"@, ("b", "ao"));
    assert("bei"@.take(1) =~= "b"@);
    assert("e"@ =~= final_of("b"@, "bei"@.skip(1)));
    lemma_insert(m5, "bei"@, ("b", "e"));
    let m6 = m5.insert("bei"@, ("b", "e"));
    assert("ben"@.take(1) =~= "b"@);
    assert("ben"@.skip(1) =~= "en"@);
    lemma_insert(m6, "ben"@, ("b", "en"));
    let m7 = m6.insert("ben"@, ("b", "en"));
    assert("beng"@.take(1) =~= "b"@);
    assert("beng"@.skip(1) =~= "eng"@);
    lemma_insert(m7, "beng"@, ("b", "eng"));
    let m8 = m7.insert("beng"@, ("b", "eng"));
    assert("bi"@.take(1) =~= "b"@);
    assert("bi"@.skip(1) =~= "i"@);
    lemma_insert(m8, "bi"@, ("b", "i"));
    let m9 = m8.insert("bi"@, ("b", "i"));
    assert("bian"@.take(1) =~= "b"@);
    assert("bian"@.skip(1) =~= "ian"@);
    lemma_insert(m9, "bian"@, ("b", "ian"));
    let m10 = m9.insert("bian"@, ("b", "ian"));
    assert("biao"@.take(1) =~= "b"@);
    assert("biao"@.skip(1) =~= "iao"@);
    lemma_insert(m10, "biao"@, ("b", "iao"));
    let m11 = m10.insert("biao"@, ("b", "iao"));
    assert("bie"@.take(1) =~= "b"@);
    assert("bie"@.skip(1) =~= "ie"@);
    lemma_insert(m11, "bie"@, ("b", "ie"));
    let m12 = m11.insert("bie"@, ("b", "ie"));
    assert("bin"@.take(1) =~= "b"@);
    assert("bin"@.skip(1) =~= "in"@);
    lemma_insert(m12, "bin"@, ("b", "in"));
    let m13 = m12.insert("bin"@, ("b", "in"));
    assert("bing"@.take(1) =~= "b"@);
    assert("bing"@.skip(1) =~= "ing"@);
    lemma_insert(m13, "bing"@, ("b", "ing"));
    let m14 = m13.insert("bing"@, ("b", "ing"));
    assert("bo"@.take(1) =~= "b"@);
    assert("bo"@.skip(1) =~= "o"@);
    lemma_insert(m14, "bo"@, ("b", "o"));
    let m15 = m14.insert("bo"@, ("b", "o"));
    assert("bu"@.take(1) =~= "b"@);
    assert("bu"@.skip(1) =~= "u"@);
    lemma_insert(m15, "bu"@, ("b", "u"));
    let m16 = m15.insert("bu"@, ("b", "u"));
}

proof fn lemma_c(m: Map<Seq<char>, (&'static str, &'static str)>)
    requires
        all_spelled(m),
    ensures
        all_spelled(syllables_c(m)),
{
    reveal_strlit("ca");
    reveal_strlit("c");
    reveal_strlit("a");
    reveal_strlit("cai");
    reveal_strlit("ai");
    reveal_strlit("can");
    reveal_strlit("an");
    reveal_strlit("cang");
    reveal_strlit("ang");
    reveal_strlit("cao");
    reveal_strlit("ao");
    reveal_strlit("ce");
    reveal_strlit("e");
    reveal_strlit("cei");
    reveal_strlit("cen");
    reveal_strlit("en");
    reveal_strlit("ceng");
    reveal_strlit("eng");
    reveal_strlit("ci");
    reveal_strlit("ir");
    reveal_strlit("cong");
    reveal_strlit("ong");
    reveal_strlit("cou");
    reveal_strlit("ou");
    reveal_strlit("cu");
    reveal_strlit("u");
    reveal_strlit("cuan");
    reveal_strlit("uan");
    reveal_strlit("cui");
    reveal_strlit("ui");
    reveal_strlit("cun");
    reveal_strlit("un");
    reveal_strlit("cuo");
    reveal_strlit("uo");
    assert("ca"@.take(1) =~= "c"@);
    assert("ca"@.skip(1) =~= "a"@);
    lemma_insert(m, "ca"@, ("c", "a"));
    let m1 = m.insert("ca"@, ("c", "a"));
    assert("cai"@.take(1) =~= "c"@);
    assert("cai"@.skip(1) =~= "ai"@);
    lemma_insert(m1, "cai"@, ("c", "ai"));
    let m2 = m1.insert("cai"@, ("c", "ai"));
    assert("can"@.take(1) =~= "c"@);
    assert("can"@.skip(1) =~= "an"@);
    lemma_insert(m2, "can"@, ("c", "an"));
    let m3 = m2.insert("can"@, ("c", "an"));
    assert("cang"@.take(1) =~= "c"@);
    assert("cang"@.skip(1) =~= "ang"@);
    lemma_insert(m3, "cang"@, ("c", "ang"));
    let m4 = m3.insert("cang"@, ("c", "ang"));
    assert("cao"@.take(1) =~= "c"@);
    assert("cao"@.skip(1) =~= "ao"@);
    lemma_insert(m4, "cao"@, ("c", "ao"));
    let m5 = m4.insert("cao"@, ("c", "ao"));
    assert("ce"@.take(1) =~= "c"@);
    assert("ce"@.skip(1) =~= "e"@);
    lemma_insert(m5, "ce"@, ("c", "e"));
    let m6 = m5.insert("ce"@, ("c", "e"));
    assert("cei"@.take(1) =~= "c"@);
    assert("e"@ =~= final_of("c"@, "cei"@.skip(1)));
    lemma_insert(m6, "cei"@, ("c", "e"));
    let m7 = m6.insert("cei"@, ("c", "e"));
    assert("cen"@.take(1) =~= "c"@);
    assert("cen"@.skip(1) =~= "en"@);
    lemma_insert(m7, "cen"@, ("c", "en"));
    let m8 = m7.insert("cen"@, ("c", "en"));
    assert("ceng"@.take(1) =~= "c"@);
    assert("ceng"@.skip(1) =~= "eng"@);
    lemma_insert(m8, "ceng"@, ("c", "eng"));
    let m9 = m8.insert("ceng"@, ("c", "eng"));
    assert("ci"@.take(1) =~= "c"@);
    assert("ir"@ =~= final_of("c"@, "ci"@.skip(1)));
    lemma_insert(m9, "ci"@, ("c", "ir"));
    let m10 = m9.insert("ci"@, ("c", "ir"));
    assert("cong"@.take(1) =~= "c"@);
    assert("cong"@.skip(1) =~= "ong"@);
    lemma_insert(m10, "cong"@, ("c", "ong"));
    let m11 = m10.insert("cong"@, ("c", "ong"));
    assert("cou"@.take(1) =~= "c"@);
    assert("cou"@.skip(1) =~= "ou"@);
    lemma_insert(m11, "cou"@, ("c", "ou"));
    let m12 = m11.insert("cou"@, ("c", "ou"));
    assert("cu"@.take(1) =~= "c"@);
    assert("cu"@.skip(1) =~= "u"@);
    lemma_insert(m12, "cu"@, ("c", "u"));
    let m13 = m12.insert("cu"@, ("c", "u"));
    assert("cuan"@.take(1) =~= "c"@);
    assert("cuan"@.skip(1) =~= "uan"@);
    lemma_insert(m13, "cuan"@, ("c", "uan"));
    let m14 = m13.insert("cuan"@, ("c", "uan"));
    assert("cui"@.take(1) =~= "c"@);
    assert("cui"@.skip(1) =~= "ui"@);
    lemma_insert(m14, "cui"@, ("c", "ui"));
    let m15 = m14.insert("cui"@, ("c", "ui"));
    assert("cun"@.take(1) =~= "c"@);
    assert("cun"@.skip(1) =~= "un"@);
    lemma_insert(m15, "cun"@, ("c", "un"));
    let m16 = m15.insert("cun"@, ("c", "un"));
    assert("cuo"@.take(1) =~= "c"@);
    assert("cuo"@.skip(1) =~= "uo"@);
    lemma_insert(m16, "cuo"@, ("c", "uo"));
    let m17 = m16.insert("cuo"@, ("c", "uo"));
}

proof fn lemma_d(m: Map<Seq<char>, (&'static str, &'static str)>)
    requires
        all_spelled(m),
    ensures
        all_spelled(syllables_d(m)),
{
    reveal_strlit("da");
    reveal_strlit("d");
    reveal_strlit("a");
    reveal_strlit("dai");
    reveal_strlit("ai");
    reveal_strlit("dan");
    reveal_strlit("an");
    reveal_strlit("dang");
    reveal_strlit("ang");
    reveal_strlit("dao");
    reveal_strlit("ao");
    reveal_strlit("de");
    reveal_strlit("e");
    reveal_strlit("dei");
    reveal_strlit("den");
    reveal_strlit("en");
    reveal_strlit("deng");
    reveal_strlit("eng");
    reveal_strlit("di");
    reveal_strlit("i");
    reveal_strlit("dia");
    reveal_strlit("ia");
    reveal_strlit("dian");
    reveal_strlit("ian");
    reveal_strlit("diao");
    reveal_strlit("iao");
    reveal_strlit("die");
    reveal_strlit("ie");
    reveal_strlit("ding");
    reveal_strlit("ing");
    reveal_strlit("diu");
    reveal_strlit("iu");
    reveal_strlit("dong");
    reveal_strlit("ong");
    reveal_strlit("dou");
    reveal_strlit("ou");
    reveal_strlit("du");
    reveal_strlit("u");
    reveal_strlit("duan");
    reveal_strlit("uan");
    reveal_strlit("dui");
    reveal_strlit("ui");
    reveal_strlit("dun");
    reveal_strlit("un");
    reveal_strlit("duo");
    reveal_strlit("uo");
    assert("da"@.take(1) =~= "d"@);
    assert("da"@.skip(1) =~= "a"@);
    lemma_insert(m, "da"@, ("d", "a"));
    let m1 = m.insert("da"@, ("d", "a"));
    assert("dai"@.take(1) =~= "d"@);
    assert("dai"@.skip(1) =~= "ai"@);
    lemma_insert(m1, "dai"@, ("d", "ai"));
    let m2 = m1.insert("dai"@, ("d", "ai"));
    assert("dan"@.take(1) =~= "d"@);
    assert("dan"@.skip(1) =~= "an"@);
    lemma_insert(m2, "dan"@, ("d", "an"));
    let m3 = m2.insert("dan"@, ("d", "an"));
    assert("dang"@.take(1) =~= "d"@);
    assert("dang"@.skip(1) =~= "ang"@);
    lemma_insert(m3, "dang"@, ("d", "ang"));
    let m4 = m3.insert("dang"@, ("d", "ang"));
    assert("dao"@.take(1) =~= "d"@);
    assert("dao"@.skip(1) =~= "ao"@);
    lemma_insert(m4, "dao"@, ("d", "ao"));
    let m5 = m4.insert("dao"@, ("d", "ao"));
    assert("de"@.take(1) =~= "d"@);
    assert("de"@.skip(1) =~= "e"@);
    lemma_insert(m5, "de"@, ("d", "e"));
    let m6 = m5.insert("de"@, ("d", "e"));
    assert("dei"@.take(1) =~= "d"@);
    assert("e"@ =~= final_of("d"@, "dei"@.skip(1)));
    lemma_insert(m6, "dei"@, ("d", "e"));
    let m7 = m6.insert("dei"@, ("d", "e"));
    assert("den"@.take(1) =~= "d"@);
    assert("den"@.skip(1) =~= "en"@);
    lemma_insert(m7, "den"@, ("d", "en"));
    let m8 = m7.insert("den"@, ("d", "en"));
    assert("deng"@.take(1) =~= "d"@);
    assert("deng"@.skip(1) =~= "eng"@);
    lemma_insert(m8, "deng"@, ("d", "eng"));
    let m9 = m8.insert("deng"@, ("d", "eng"));
    assert("di"@.take(1) =~= "d"@);
    assert("di"@.skip(1) =~= "i"@);
    lemma_insert(m9, "di"@, ("d", "i"));
    let m10 = m9.insert("di"@, ("d", "i"));
    assert("dia"@.take(1) =~= "d"@);
    assert("dia"@.skip(1) =~= "ia"@);
    lemma_insert(m10, "dia"@, ("d", "ia"));
    let m11 = m10.insert("dia"@, ("d", "ia"));
    assert("dian"@.take(1) =~= "d"@);
    assert("dian"@.skip(1) =~= "ian"@);
    lemma_insert(m11, "dian"@, ("d", "ian"));
    let m12 = m11.insert("dian"@, ("d", "ian"));
    assert("diao"@.take(1) =~= "d"@);
    assert("diao"@.skip(1) =~= "iao"@);
    lemma_insert(m12, "diao"@, ("d", "iao"));
    let m13 = m12.insert("diao"@, ("d", "iao"));
    assert("die"@.take(1) =~= "d"@);
    assert("die"@.skip(1) =~= "ie"@);
    lemma_insert(m13, "die"@, ("d", "ie"));
    let m14 = m13.insert("die"@, ("d", "ie"));
    assert("ding"@.take(1) =~= "d"@);
    assert("ding"@.skip(1) =~= "ing"@);
    lemma_insert(m14, "ding"@, ("d", "ing"));
    let m15 = m14.insert("ding"@, ("d", "ing"));
    assert("diu"@.take(1) =~= "d"@);
    assert("diu"@.skip(1) =~= "iu"@);
    lemma_insert(m15, "diu"@, ("d", "iu"));
    let m16 = m15.insert("diu"@, ("d", "iu"));
    assert("dong"@.take(1) =~= "d"@);
    assert("dong"@.skip(1) =~= "ong"@);
    lemma_insert(m16, "dong"@, ("d", "ong"));
    let m17 = m16.insert("dong"@, ("d", "ong"));
    assert("dou"@.take(1) =~= "d"@);
    assert("dou"@.skip(1) =~= "ou"@);
    lemma_insert(m17, "dou"@, ("d", "ou"));
    let m18 = m17.insert("dou"@, ("d", "ou"));
    assert("du"@.take(1) =~= "d"@);
    assert("du"@.skip(1) =~= "u"@);
    lemma_insert(m18, "du"@, ("d", "u"));
    let m19 = m18.insert("du"@, ("d", "u"));
    assert("duan"@.take(1) =~= "d"@);
    assert("duan"@.skip(1) =~= "uan"@);
    lemma_insert(m19, "duan"@, ("d", "uan"));
    let m20 = m19.insert("duan"@, ("d", "uan"));
    assert("dui"@.take(1) =~= "d"@);
    assert("dui"@.skip(1) =~= "ui"@);
    lemma_insert(m20, "dui"@, ("d", "ui"));
    let m21 = m20.insert("dui"@, ("d", "ui"));
    assert("dun"@.take(1) =~= "d"@);
    assert("dun"@.skip(1) =~= "un"@);
    lemma_insert(m21, "dun"@, ("d", "un"));
    let m22 = m21.insert("dun"@, ("d", "un"));
    assert("duo"@.take(1) =~= "d"@);
    assert("duo"@.skip(1) =~= "uo"@);
    lemma_insert(m22, "duo"@, ("d", "uo"));
    let m23 = m22.insert("duo"@, ("d", "uo"));
}

proof fn lemma_f(m: Map<Seq<char>, (&'static str, &'static str)>)
    requires
        all_spelled(m),
    ensures
        all_spelled(syllables_f(m)),
{
    reveal_strlit("fa");
    reveal_strlit("f");
    reveal_strlit("a");
    reveal_strlit("fan");
    reveal_strlit("an");
    reveal_strlit("fang");
    reveal_strlit("ang");
    reveal_strlit("fei");
    reveal_strlit("e");
    reveal_strlit("fen");
    reveal_strlit("en");
    reveal_strlit("feng");
    reveal_strlit("eng");
    reveal_strlit("fo");
    reveal_strlit("o");
    reveal_strlit("fou");
    reveal_strlit("ou");
    reveal_strlit("fu");
    reveal_strlit("u");
    assert("fa"@.take(1) =~= "f"@);
    assert("fa"@.skip(1) =~= "a"@);
    lemma_insert(m, "fa"@, ("f", "a"));
    let m1 = m.insert("fa"@, ("f", "a"));
    assert("fan"@.take(1) =~= "f"@);
    assert("fan"@.skip(1) =~= "an"@);
    lemma_insert(m1, "fan"@, ("f", "an"));
    let m2 = m1.insert("fan"@, ("f", "an"));
    assert("fang"@.take(1) =~= "f"@);
    assert("fang"@.skip(1) =~= "ang"@);
    lemma_insert(m2, "fang"@, ("f", "ang"));
    let m3 = m2.insert("fang"@, ("f", "ang"));
    assert("fei"@.take(1) =~= "f"@);
    assert("e"@ =~= final_of("f"@, "fei"@.skip(1)));
    lemma_insert(m3, "fei"@, ("f", "e"));
    let m4 = m3.insert("fei"@, ("f", "e"));
    assert("fen"@.take(1) =~= "f"@);
    assert("fen"@.skip(1) =~= "en"@);
    lemma_insert(m4, "fen"@, ("f", "en"));
    let m5 = m4.insert("fen"@, ("f", "en"));
    assert("feng"@.take(1) =~= "f"@);
    assert("feng"@.skip(1) =~= "eng"@);
    lemma_insert(m5, "feng"@, ("f", "eng"));
    let m6 = m5.insert("feng"@, ("f", "eng"));
    assert("fo"@.take(1) =~= "f"@);
    assert("fo"@.skip(1) =~= "o"@);
    lemma_insert(m6, "fo"@, ("f", "o"));
    let m7 = m6.insert("fo"@, ("f", "o"));
    assert("fou"@.take(1) =~= "f"@);
    assert("fou"@.skip(1) =~= "ou"@);
    lemma_insert(m7, "fou"@, ("f", "ou"));
    let m8 = m7.insert("fou"@, ("f", "ou"));
    assert("fu"@.take(1) =~= "f"@);
    assert("fu"@.skip(1) =~= "u"@);
    lemma_insert(m8, "fu"@, ("f", "u"));
    let m9 = m8.insert("fu"@, ("f", "u"));
}

proof fn lemma_g(m: Map<Seq<char>, (&'static str, &'static str)>)
    requires
        all_spelled(m),
    ensures
        all_spelled(syllables_g(m)),
{
    reveal_strlit("ga");
    reveal_strlit("g");
    reveal_strlit("a");
    reveal_strlit("gai");
    reveal_strlit("ai");
    reveal_strlit("gan");
    reveal_strlit("an");
    reveal_strlit("gang");
    reveal_strlit("ang");
    reveal_strlit("gao");
    reveal_strlit("ao");
    reveal_strlit("ge");
    reveal_strlit("e");
    reveal_strlit("gei");
    reveal_strlit("gen");
    reveal_strlit("en");
    reveal_strlit("geng");
    reveal_strlit("eng");
    reveal_strlit("gong");
    reveal_strlit("ong");
    reveal_strlit("gou");
    reveal_strlit("ou");
    reveal_strlit("gu");
    reveal_strlit("u");
    reveal_strlit("gua");
    reveal_strlit("ua");
    reveal_strlit("guai");
    reveal_strlit("uai");
    reveal_strlit("guan");
    reveal_strlit("uan");
    reveal_strlit("guang");
    reveal_strlit("uang");
    reveal_strlit("gui");
    reveal_strlit("ui");
    reveal_strlit("gun");
    reveal_strlit("un");
    reveal_strlit("guo");
    reveal_strlit("uo");
    assert("ga"@.take(1) =~= "g"@);
    assert("ga"@.skip(1) =~= "a"@);
    lemma_insert(m, "ga"@, ("g", "a"));
    let m1 = m.insert("ga"@, ("g", "a"));
    assert("gai"@.take(1) =~= "g"@);
    assert("gai"@.skip(1) =~= "ai"@);
    lemma_insert(m1, "gai"@, ("g", "ai"));
    let m2 = m1.insert("gai"@, ("g", "ai"));
    assert("gan"@.take(1) =~= "g"@);
    assert("gan"@.skip(1) =~= "an"@);
    lemma_insert(m2, "gan"@, ("g", "an"));
    let m3 = m2.insert("gan"@, ("g", "an"));
    assert("gang"@.take(1) =~= "g"@);
    assert("gang"@.skip(1) =~= "ang"@);
    lemma_insert(m3, "gang"@, ("g", "ang"));
    let m4 = m3.insert("gang"@, ("g", "ang"));
    assert("gao"@.take(1) =~= "g"@);
    assert("gao"@.skip(1) =~= "ao"@);
    lemma_insert(m4, "gao"@, ("g", "ao"));
    let m5 = m4.insert("gao"@, ("g", "ao"));
    assert("ge"@.take(1) =~= "g"@);
    assert("ge"@.skip(1) =~= "e"@);
    lemma_insert(m5, "ge"@, ("g", "e"));
    let m6 = m5.insert("ge"@, ("g", "e"));
    assert("gei"@.take(1) =~= "g"@);
    assert("e"@ =~= final_of("g"@, "gei"@.skip(1)));
    lemma_insert(m6, "gei"@, ("g", "e"));
    let m7 = m6.insert("gei"@, ("g", "e"));
    assert("gen"@.take(1) =~= "g"@);
    assert("gen"@.skip(1) =~= "en"@);
    lemma_insert(m7, "gen"@, ("g", "en"));
    let m8 = m7.insert("gen"@, ("g", "en"));
    assert("geng"@.take(1) =~= "g"@);
    assert("geng"@.skip(1) =~= "eng"@);
    lemma_insert(m8, "geng"@, ("g", "eng"));
    let m9 = m8.insert("geng"@, ("g", "eng"));
    assert("gong"@.take(1) =~= "g"@);
    assert("gong"@.skip(1) =~= "ong"@);
    lemma_insert(m9, "gong"@, ("g", "ong"));
    let m10 = m9.insert("gong"@, ("g", "ong"));
    assert("gou"@.take(1) =~= "g"@);
    assert("gou"@.skip(1) =~= "ou"@);
    lemma_insert(m10, "gou"@, ("g", "ou"));
    let m11 = m10.insert("gou"@, ("g", "ou"));
    assert("gu"@.take(1) =~= "g"@);
    assert("gu"@.skip(1) =~= "u"@);
    lemma_insert(m11, "gu"@, ("g", "u"));
    let m12 = m11.insert("gu"@, ("g", "u"));
    assert("gua"@.take(1) =~= "g"@);
    assert("gua"@.skip(1) =~= "ua"@);
    lemma_insert(m12, "gua"@, ("g", "ua"));
    let m13 = m12.insert("gua"@, ("g", "ua"));
    assert("guai"@.take(1) =~= "g"@);
    assert("guai"@.skip(1) =~= "uai"@);
    lemma_insert(m13, "guai"@, ("g", "uai"));
    let m14 = m13.insert("guai"@, ("g", "uai"));
    assert("guan"@.take(1) =~= "g"@);
    assert("guan"@.skip(1) =~= "uan"@);
    lemma_insert(m14, "guan"@, ("g", "uan"));
    let m15 = m14.insert("guan"@, ("g", "uan"));
    assert("guang"@.take(1) =~= "g"@);
    assert("guang"@.skip(1) =~= "uang"@);
    lemma_insert(m15, "guang"@, ("g", "uang"));
    let m16 = m15.insert("guang"@, ("g", "uang"));
    assert("gui"@.take(1) =~= "g"@);
    assert("gui"@.skip(1) =~= "ui"@);
    lemma_insert(m16, "gui"@, ("g", "ui"));
    let m17 = m16.insert("gui"@, ("g", "ui"));
    assert("gun"@.take(1) =~= "g"@);
    assert("gun"@.skip(1) =~= "un"@);
    lemma_insert(m17, "gun"@, ("g", "un"));
    let m18 = m17.insert("gun"@, ("g", "un"));
    assert("guo"@.take(1) =~= "g"@);
    assert("guo"@.skip(1) =~= "uo"@);
    lemma_insert(m18, "guo"@, ("g", "uo"));
    let m19 = m18.insert("guo"@, ("g", "uo"));
}

proof fn lemma_h(m: Map<Seq<char>, (&'static str, &'static str)>)
    requires
        all_spelled(m),
    ensures
        all_spelled(syllables_h(m)),
{
    reveal_strlit("ha");
    reveal_strlit("h");
    reveal_strlit("a");
    reveal_strlit("hai");
    reveal_strlit("ai");
    reveal_strlit("han");
    reveal_strlit("an");
    reveal_strlit("hang");
    reveal_strlit("ang");
    reveal_strlit("hao");
    reveal_strlit("ao");
    reveal_strlit("he");
    reveal_strlit("e");
    reveal_strlit("hei");
    reveal_strlit("hen");
    reveal_strlit("en");
    reveal_strlit("heng");
    reveal_strlit("eng");
    reveal_strlit("hong");
    reveal_strlit("ong");
    reveal_strlit("hou");
    reveal_strlit("ou");
    reveal_strlit("hu");
    reveal_strlit("u");
    reveal_strlit("hua");
    reveal_strlit("ua");
    reveal_strlit("huai");
    reveal_strlit("uai");
    reveal_strlit("huan");
    reveal_strlit("uan");
    reveal_strlit("huang");
    reveal_strlit("uang");
    reveal_strlit("hui");
    reveal_strlit("ui");
    reveal_strlit("hun");
    reveal_strlit("un");
    reveal_strlit("huo");
    reveal_strlit("uo");
    assert("ha"@.take(1) =~= "h"@);
    assert("ha"@.skip(1) =~= "a"@);
    lemma_insert(m, "ha"@, ("h", "a"));
    let m1 = m.insert("ha"@, ("h", "a"));
    assert("hai"@.take(1) =~= "h"@);
    assert("hai"@.skip(1) =~= "ai"@);
    lemma_insert(m1, "hai"@, ("h", "ai"));
    let m2 = m1.insert("hai"@, ("h", "ai"));
    assert("han"@.take(1) =~= "h"@);
    assert("han"@.skip(1) =~= "an"@);
    lemma_insert(m2, "han"@, ("h", "an"));
    let m3 = m2.insert("han"@, ("h", "an"));
    assert("hang"@.take(1) =~= "h"@);
    assert("hang"@.skip(1) =~= "ang"@);
    lemma_insert(m3, "hang"@, ("h", "ang"));
    let m4 = m3.insert("hang"@, ("h", "ang"));
    assert("hao"@.take(1) =~= "h"@);
    assert("hao"@.skip(1) =~= "ao"@);
    lemma_insert(m4, "hao"@, ("h", "ao"));
    let m5 = m4.insert("hao"@, ("h", "ao"));
    assert("he"@.take(1) =~= "h"@);
    assert("he"@.skip(1) =~= "e"@);
    lemma_insert(m5, "he"@, ("h", "e"));
    let m6 = m5.insert("he"@, ("h", "e"));
    assert("hei"@.take(1) =~= "h"@);
    assert("e"@ =~= final_of("h"@, "hei"@.skip(1)));
    lemma_insert(m6, "hei"@, ("h", "e"));
    let m7 = m6.insert("hei"@, ("h", "e"));
    assert("hen"@.take(1) =~= "h"@);
    assert("hen"@.skip(1) =~= "en"@);
    lemma_insert(m7, "hen"@, ("h", "en"));
    let m8 = m7.insert("hen"@, ("h", "en"));
    assert("heng"@.take(1) =~= "h"@);
    assert("heng"@.skip(1) =~= "eng"@);
    lemma_insert(m8, "heng"@, ("h", "eng"));
    let m9 = m8.insert("heng"@, ("h", "eng"));
    assert("hong"@.take(1) =~= "h"@);
    assert("hong"@.skip(1) =~= "ong"@);
    lemma_insert(m9, "hong"@, ("h", "ong"));
    let m10 = m9.insert("hong"@, ("h", "ong"));
    assert("hou"@.take(1) =~= "h"@);
    assert("hou"@.skip(1) =~= "ou"@);
    lemma_insert(m10, "hou"@, ("h", "ou"));
    let m11 = m10.insert("hou"@, ("h", "ou"));
    assert("hu"@.take(1) =~= "h"@);
    assert("hu"@.skip(1) =~= "u"@);
    lemma_insert(m11, "hu"@, ("h", "u"));
    let m12 = m11.insert("hu"@, ("h", "u"));
    assert("hua"@.take(1) =~= "h"@);
    assert("hua"@.skip(1) =~= "ua"@);
    lemma_insert(m12, "hua"@, ("h", "ua"));
    let m13 = m12.insert("hua"@, ("h", "ua"));
    assert("huai"@.take(1) =~= "h"@);
    assert("huai"@.skip(1) =~= "uai"@);
    lemma_insert(m13, "huai"@, ("h", "uai"));
    let m14 = m13.insert("huai"@, ("h", "uai"));
    assert("huan"@.take(1) =~= "h"@);
    assert("huan"@.skip(1) =~= "uan"@);
    lemma_insert(m14, "huan"@, ("h", "uan"));
    let m15 = m14.insert("huan"@, ("h", "uan"));
    assert("huang"@.take(1) =~= "h"@);
    assert("huang"@.skip(1) =~= "uang"@);
    lemma_insert(m15, "huang"@, ("h", "uang"));
    let m16 = m15.insert("huang"@, ("h", "uang"));
    assert("hui"@.take(1) =~= "h"@);
    assert("hui"@.skip(1) =~= "ui"@);
    lemma_insert(m16, "hui"@, ("h", "ui"));
    let m17 = m16.insert("hui"@, ("h", "ui"));
    assert("hun"@.take(1) =~= "h"@);
    assert("hun"@.skip(1) =~= "un"@);
    lemma_insert(m17, "hun"@, ("h", "un"));
    let m18 = m17.insert("hun"@, ("h", "un"));
    assert("huo"@.take(1) =~= "h"@);
    assert("huo"@.skip(1) =~= "uo"@);
    lemma_insert(m18, "huo"@, ("h", "uo"));
    let m19 = m18.insert("huo"@, ("h", "uo"));
}

proof fn lemma_j(m: Map<Seq<char>, (&'static str, &'static str)>)
    requires
        all_spelled(m),
    ensures
        all_spelled(syllables_j(m)),
{
    reveal_strlit("ji");
    reveal_strlit("j");
    reveal_strlit("i");
    reveal_strlit("jia");
    reveal_strlit("ia");
    reveal_strlit("jian");
    reveal_strlit("ian");
    reveal_strlit("jiang");
    reveal_strlit("iang");
    reveal_strlit("jiao");
    reveal_strlit("iao");
    reveal_strlit("jie");
    reveal_strlit("ie");
    reveal_strlit("jin");
    reveal_strlit("in");
    reveal_strlit("jing");
    reveal_strlit("ing");
    reveal_strlit("jiong");
    reveal_strlit("iong");
    reveal_strlit("jiu");
    reveal_strlit("iu");
    reveal_strlit("ju");
    reveal_strlit("v");
    reveal_strlit("juan");
    reveal_strlit("van");
    reveal_strlit("jue");
    reveal_strlit("ve");
    reveal_strlit("jun");
    reveal_strlit("vn");
    assert("ji"@.take(1) =~= "j"@);
    assert("ji"@.skip(1) =~= "i"@);
    lemma_insert(m, "ji"@, ("j", "i"));
    let m1 = m.insert("ji"@, ("j", "i"));
    assert("jia"@.take(1) =~= "j"@);
    assert("jia"@.skip(1) =~= "ia"@);
    lemma_insert(m1, "jia"@, ("j", "ia"));
    let m2 = m1.insert("jia"@, ("j", "ia"));
    assert("jian"@.take(1) =~= "j"@);
    assert("jian"@.skip(1) =~= "ian"@);
    lemma_insert(m2, "jian"@, ("j", "ian"));
    let m3 = m2.insert("jian"@, ("j", "ian"));
    assert("jiang"@.take(1) =~= "j"@);
    assert("jiang"@.skip(1) =~= "iang"@);
    lemma_insert(m3, "jiang"@, ("j", "iang"));
    let m4 = m3.insert("jiang"@, ("j", "iang"));
    assert("jiao"@.take(1) =~= "j"@);
    assert("jiao"@.skip(1) =~= "iao"@);
    lemma_insert(m4, "jiao"@, ("j", "iao"));
    let m5 = m4.insert("jiao"@, ("j", "iao"));
    assert("jie"@.take(1) =~= "j"@);
    assert("jie"@.skip(1) =~= "ie"@);
    lemma_insert(m5, "jie"@, ("j", "ie"));
    let m6 = m5.insert("jie"@, ("j", "ie"));
    assert("jin"@.take(1) =~= "j"@);
    assert("jin"@.skip(1) =~= "in"@);
    lemma_insert(m6, "jin"@, ("j", "in"));
    let m7 = m6.insert("jin"@, ("j", "in"));
    assert("jing"@.take(1) =~= "j"@);
    assert("jing"@.skip(1) =~= "ing"@);
    lemma_insert(m7, "jing"@, ("j", "ing"));
    let m8 = m7.insert("jing"@, ("j", "ing"));
    assert("jiong"@.take(1) =~= "j"@);
    assert("jiong"@.skip(1) =~= "iong"@);
    lemma_insert(m8, "jiong"@, ("j", "iong"));
    let m9 = m8.insert("jiong"@, ("j", "iong"));
    assert("jiu"@.take(1) =~= "j"@);
    assert("jiu"@.skip(1) =~= "iu"@);
    lemma_insert(m9, "jiu"@, ("j", "iu"));
    let m10 = m9.insert("jiu"@, ("j", "iu"));
    assert("ju"@.take(1) =~= "j"@);
    assert("v"@ =~= final_of("j"@, "ju"@.skip(1)));
    lemma_insert(m10, "ju"@, ("j", "v"));
    let m11 = m10.insert("ju"@, ("j", "v"));
    assert("juan"@.take(1) =~= "j"@);
    assert("van"@ =~= final_of("j"@, "juan"@.skip(1)));
    lemma_insert(m11, "juan"@, ("j", "van"));
    let m12 = m11.insert("juan"@, ("j", "van"));
    assert("jue"@.take(1) =~= "j"@);
    assert("ve"@ =~= final_of("j"@, "jue"@.skip(1)));
    lemma_insert(m12, "jue"@, ("j", "ve"));
    let m13 = m12.insert("jue"@, ("j", "ve"));
    assert("jun"@.take(1) =~= "j"@);
    assert("vn"@ =~= final_of("j"@, "jun"@.skip(1)));
    lemma_insert(m13, "jun"@, ("j", "vn"));
    let m14 = m13.insert("jun"@, ("j", "vn"));
}

proof fn lemma_k(m: Map<Seq<char>, (&'static str, &'static str)>)
    requires
        all_spelled(m),
    ensures
        all_spelled(syllables_k(m)),
{
    reveal_strlit("ka");
    reveal_strlit("k");
    reveal_strlit("a");
    reveal_strlit("kai");
    reveal_strlit("ai");
    reveal_strlit("kan");
    reveal_strlit("an");
    reveal_strlit("kang");
    reveal_strlit("ang");
    reveal_strlit("kao");
    reveal_strlit("ao");
    reveal_strlit("ke");
    reveal_strlit("e");
    reveal_strlit("kei");
    reveal_strlit("ken");
    reveal_strlit("en");
    reveal_strlit("keng");
    reveal_strlit("eng");
    reveal_strlit("kong");
    reveal_strlit("ong");
    reveal_strlit("kou");
    reveal_strlit("ou");
    reveal_strlit("ku");
    reveal_strlit("u");
    reveal_strlit("kua");
    reveal_strlit("ua");
    reveal_strlit("kuai");
    reveal_strlit("uai");
    reveal_strlit("kuan");
    reveal_strlit("uan");
    reveal_strlit("kuang");
    reveal_strlit("uang");
    reveal_strlit("kui");
    reveal_strlit("ui");
    reveal_strlit("kun");
    reveal_strlit("un");
    reveal_strlit("kuo");
    reveal_strlit("uo");
    assert("ka"@.take(1) =~= "k"@);
    assert("ka"@.skip(1) =~= "a"@);
    lemma_insert(m, "ka"@, ("k", "a"));
    let m1 = m.insert("ka"@, ("k", "a"));
    assert("kai"@.take(1) =~= "k"@);
    assert("kai"@.skip(1) =~= "ai"@);
    lemma_insert(m1, "kai"@, ("k", "ai"));
    let m2 = m1.insert("kai"@, ("k", "ai"));
    assert("kan"@.take(1) =~= "k"@);
    assert("kan"@.skip(1) =~= "an"@);
    lemma_insert(m2, "kan"@, ("k", "an"));
    let m3 = m2.insert("kan"@, ("k", "an"));
    assert("kang"@.take(1) =~= "k"@);
    assert("kang"@.skip(1) =~= "ang"@);
    lemma_insert(m3, "kang"@, ("k", "ang"));
    let m4 = m3.insert("kang"@, ("k", "ang"));
    assert("kao"@.take(1) =~= "k"@);
    assert("kao"@.skip(1) =~= "ao"@);
    lemma_insert(m4, "kao"@, ("k", "ao"));
    let m5 = m4.insert("kao"@, ("k", "ao"));
    assert("ke"@.take(1) =~= "k"@);
    assert("ke"@.skip(1) =~= "e"@);
    lemma_insert(m5, "ke"@, ("k", "e"));
    let m6 = m5.insert("ke"@, ("k", "e"));
    assert("kei"@.take(1) =~= "k"@);
    assert("e"@ =~= final_of("k"@, "kei"@.skip(1)));
    lemma_insert(m6, "kei"@, ("k", "e"));
    let m7 = m6.insert("kei"@, ("k", "e"));
    assert("ken"@.take(1) =~= "k"@);
    assert("ken"@.skip(1) =~= "en"@);
    lemma_insert(m7, "ken"@, ("k", "en"));
    let m8 = m7.insert("ken"@, ("k", "en"));
    assert("keng"@.take(1) =~= "k"@);
    assert("keng"@.skip(1) =~= "eng"@);
    lemma_insert(m8, "keng"@, ("k", "eng"));
    let m9 = m8.insert("keng"@, ("k", "eng"));
    assert("kong"@.take(1) =~= "k"@);
    assert("kong"@.skip(1) =~= "ong"@);
    lemma_insert(m9, "kong"@, ("k", "ong"));
    let m10 = m9.insert("kong"@, ("k", "ong"));
    assert("kou"@.take(1) =~= "k"@);
    assert("kou"@.skip(1) =~= "ou"@);
    lemma_insert(m10, "kou"@, ("k", "ou"));
    let m11 = m10.insert("kou"@, ("k", "ou"));
    assert("ku"@.take(1) =~= "k"@);
    assert("ku"@.skip(1) =~= "u"@);
    lemma_insert(m11, "ku"@, ("k", "u"));
    let m12 = m11.insert("ku"@, ("k", "u"));
    assert("kua"@.take(1) =~= "k"@);
    assert("kua"@.skip(1) =~= "ua"@);
    lemma_insert(m12, "kua"@, ("k", "ua"));
    let m13 = m12.insert("kua"@, ("k", "ua"));
    assert("kuai"@.take(1) =~= "k"@);
    assert("kuai"@.skip(1) =~= "uai"@);
    lemma_insert(m13, "kuai"@, ("k", "uai"));
    let m14 = m13.insert("kuai"@, ("k", "uai"));
    assert("kuan"@.take(1) =~= "k"@);
    assert("kuan"@.skip(1) =~= "uan"@);
    lemma_insert(m14, "kuan"@, ("k", "uan"));
    let m15 = m14.insert("kuan"@, ("k", "uan"));
    assert("kuang"@.take(1) =~= "k"@);
    assert("kuang"@.skip(1) =~= "uang"@);
    lemma_insert(m15, "kuang"@, ("k", "uang"));
    let m16 = m15.insert("kuang"@, ("k", "uang"));
    assert("kui"@.take(1) =~= "k"@);
    assert("kui"@.skip(1) =~= "ui"@);
    lemma_insert(m16, "kui"@, ("k", "ui"));
    let m17 = m16.insert("kui"@, ("k", "ui"));
    assert("kun"@.take(1) =~= "k"@);
    assert("kun"@.skip(1) =~= "un"@);
    lemma_insert(m17, "kun"@, ("k", "un"));
    let m18 = m17.insert("kun"@, ("k", "un"));
    assert("kuo"@.take(1) =~= "k"@);
    assert("kuo"@.skip(1) =~= "uo"@);
    lemma_insert(m18, "kuo"@, ("k", "uo"));
    let m19 = m18.insert("kuo"@, ("k", "uo"));
}

proof fn lemma_l(m: Map<Seq<char>, (&'static str, &'static str)>)
    requires
        all_spelled(m),
    ensures
        all_spelled(syllables_l(m)),
{
    reveal_strlit("la");
    reveal_strlit("l");
    reveal_strlit("a");
    reveal_strlit("lai");
    reveal_strlit("ai");
    reveal_strlit("lan");
    reveal_strlit("an");
    reveal_strlit("lang");
    reveal_strlit("ang");
    reveal_strlit("lao");
    reveal_strlit("ao");
    reveal_strlit("le");
    reveal_strlit("e");
    reveal_strlit("lei");
    reveal_strlit("leng");
    reveal_strlit("eng");
    reveal_strlit("li");
    reveal_strlit("i");
    reveal_strlit("lia");
    reveal_strlit("ia");
    reveal_strlit("lian");
    reveal_strlit("ian");
    reveal_strlit("liang");
    reveal_strlit("iang");
    reveal_strlit("liao");
    reveal_strlit("iao");
    reveal_strlit("lie");
    reveal_strlit("ie");
    reveal_strlit("lin");
    reveal_strlit("in");
    reveal_strlit("ling");
    reveal_strlit("ing");
    reveal_strlit("liu");
    reveal_strlit("iu");
    reveal_strlit("long");
    reveal_strlit("ong");
    reveal_strlit("lou");
    reveal_strlit("ou");
    reveal_strlit("lu");
    reveal_strlit("u");
    reveal_strlit("lv");
    reveal_strlit("v");
    reveal_strlit("luan");
    reveal_strlit("uan");
    reveal_strlit("lve");
    reveal_strlit("ve");
    reveal_strlit("lue");
    reveal_strlit("lun");
    reveal_strlit("un");
    reveal_strlit("luo");
    reveal_strlit("uo");
    assert("la"@.take(1) =~= "l"@);
    assert("la"@.skip(1) =~= "a"@);
    lemma_insert(m, "la"@, ("l", "a"));
    let m1 = m.insert("la"@, ("l", "a"));
    assert("lai"@.take(1) =~= "l"@);
    assert("lai"@.skip(1) =~= "ai"@);
    lemma_insert(m1, "lai"@, ("l", "ai"));
    let m2 = m1.insert("lai"@, ("l", "ai"));
    assert("lan"@.take(1) =~= "l"@);
    assert("lan"@.skip(1) =~= "an"@);
    lemma_insert(m2, "lan"@, ("l", "an"));
    let m3 = m2.insert("lan"@, ("l", "an"));
    assert("lang"@.take(1) =~= "l"@);
    assert("lang"@.skip(1) =~= "ang"@);
    lemma_insert(m3, "lang"@, ("l", "ang"));
    let m4 = m3.insert("lang"@, ("l", "ang"));
    assert("lao"@.take(1) =~= "l"@);
    assert("lao"@.skip(1) =~= "ao"@);
    lemma_insert(m4, "lao"@, ("l", "ao"));
    let m5 = m4.insert("lao"@, ("l", "ao"));
    assert("le"@.take(1) =~= "l"@);
    assert("le"@.skip(1) =~= "e"@);
    lemma_insert(m5, "le"@, ("l", "e"));
    let m6 = m5.insert("le"@, ("l", "e"));
    assert("lei"@.take(1) =~= "l"@);
    assert("e"@ =~= final_of("l"@, "lei"@.skip(1)));
    lemma_insert(m6, "lei"@, ("l", "e"));
    let m7 = m6.insert("lei"@, ("l", "e"));
    assert("leng"@.take(1) =~= "l"@);
    assert("leng"@.skip(1) =~= "eng"@);
    lemma_insert(m7, "leng"@, ("l", "eng"));
    let m8 = m7.insert("leng"@, ("l", "eng"));
    assert("li"@.take(1) =~= "l"@);
    assert("li"@.skip(1) =~= "i"@);
    lemma_insert(m8, "li"@, ("l", "i"));
    let m9 = m8.insert("li"@, ("l", "i"));
    assert("lia"@.take(1) =~= "l"@);
    assert("lia"@.skip(1) =~= "ia"@);
    lemma_insert(m9, "lia"@, ("l", "ia"));
    let m10 = m9.insert("lia"@, ("l", "ia"));
    assert("lian"@.take(1) =~= "l"@);
    assert("lian"@.skip(1) =~= "ian"@);
    lemma_insert(m10, "lian"@, ("l", "ian"));
    let m11 = m10.insert("lian"@, ("l", "ian"));
    assert("liang"@.take(1) =~= "l"@);
    assert("liang"@.skip(1) =~= "iang"@);
    lemma_insert(m11, "liang"@, ("l", "iang"));
    let m12 = m11.insert("liang"@, ("l", "iang"));
    assert("liao"@.take(1) =~= "l"@);
    assert("liao"@.skip(1) =~= "iao"@);
    lemma_insert(m12, "liao"@, ("l", "iao"));
    let m13 = m12.insert("liao"@, ("l", "iao"));
    assert("lie"@.take(1) =~= "l"@);
    assert("lie"@.skip(1) =~= "ie"@);
    lemma_insert(m13, "lie"@, ("l", "ie"));
    let m14 = m13.insert("lie"@, ("l", "ie"));
    assert("lin"@.take(1) =~= "l"@);
    assert("lin"@.skip(1) =~= "in"@);
    lemma_insert(m14, "lin"@, ("l", "in"));
    let m15 = m14.insert("lin"@, ("l", "in"));
    assert("ling"@.take(1) =~= "l"@);
    assert("ling"@.skip(1) =~= "ing"@);
    lemma_insert(m15, "ling"@, ("l", "ing"));
    let m16 = m15.insert("ling"@, ("l", "ing"));
    assert("liu"@.take(1) =~= "l"@);
    assert("liu"@.skip(1) =~= "iu"@);
    lemma_insert(m16, "liu"@, ("l", "iu"));
    let m17 = m16.insert("liu"@, ("l", "iu"));
    assert("long"@.take(1) =~= "l"@);
    assert("long"@.skip(1) =~= "ong"@);
    lemma_insert(m17, "long"@, ("l", "ong"));
    let m18 = m17.insert("long"@, ("l", "ong"));
    assert("lou"@.take(1) =~= "l"@);
    assert("lou"@.skip(1) =~= "ou"@);
    lemma_insert(m18, "lou"@, ("l", "ou"));
    let m19 = m18.insert("lou"@, ("l", "ou"));
    assert("lu"@.take(1) =~= "l"@);
    assert("lu"@.skip(1) =~= "u"@);
    lemma_insert(m19, "lu"@, ("l", "u"));
    let m20 = m19.insert("lu"@, ("l", "u"));
    assert("lv"@.take(1) =~= "l"@);
    assert("lv"@.skip(1) =~= "v"@);
    lemma_insert(m20, "lv"@, ("l", "v"));
    let m21 = m20.insert("lv"@, ("l", "v"));
    assert("luan"@.take(1) =~= "l"@);
    assert("luan"@.skip(1) =~= "uan"@);
    lemma_insert(m21, "luan"@, ("l", "uan"));
    let m22 = m21.insert("luan"@, ("l", "uan"));
    assert("lve"@.take(1) =~= "l"@);
    assert("lve"@.skip(1) =~= "ve"@);
    lemma_insert(m22, "lve"@, ("l", "ve"));
    let m23 = m22.insert("lve"@, ("l", "ve"));
    assert("lue"@.take(1) =~= "l"@);
    assert("ve"@ =~= final_of("l"@, "lue"@.skip(1)));
    lemma_insert(m23, "lue"@, ("l", "ve"));
    let m24 = m23.insert("lue"@, ("l", "ve"));
    assert("lun"@.take(1) =~= "l"@);
    assert("lun"@.skip(1) =~= "un"@);
    lemma_insert(m24, "lun"@, ("l", "un"));
    let m25 = m24.insert("lun"@, ("l", "un"));
    assert("luo"@.take(1) =~= "l"@);
    assert("luo"@.skip(1) =~= "uo"@);
    lemma_insert(m25, "luo"@, ("l", "uo"));
    let m26 = m25.insert("luo"@, ("l", "uo"));
}

proof fn lemma_m(m: Map<Seq<char>, (&'static str, &'static str)>)
    requires
        all_spelled(m),
    ensures
        all_spelled(syllables_m(m)),
{
    reveal_strlit("ma");
    reveal_strlit("m");
    reveal_strlit("a");
    reveal_strlit("mai");
    reveal_strlit("ai");
    reveal_strlit("man");
    reveal_strlit("an");
    reveal_strlit("mang");
    reveal_strlit("ang");
    reveal_strlit("mao");
    reveal_strlit("ao");
    reveal_strlit("me");
    reveal_strlit("e");
    reveal_strlit("mei");
    reveal_strlit("men");
    reveal_strlit("en");
    reveal_strlit("meng");
    reveal_strlit("eng");
    reveal_strlit("mi");
    reveal_strlit("i");
    reveal_strlit("mian");
    reveal_strlit("ian");
    reveal_strlit("miao");
    reveal_strlit("iao");
    reveal_strlit("mie");
    reveal_strlit("ie");
    reveal_strlit("min");
    reveal_strlit("in");
    reveal_strlit("ming");
    reveal_strlit("ing");
    reveal_strlit("miu");
    reveal_strlit("iu");
    reveal_strlit("mo");
    reveal_strlit("o");
    reveal_strlit("mou");
    reveal_strlit("ou");
    reveal_strlit("mu");
    reveal_strlit("u");
    assert("ma"@.take(1) =~= "m"@);
    assert("ma"@.skip(1) =~= "a"@);
    lemma_insert(m, "ma"@, ("m", "a"));
    let m1 = m.insert("ma"@, ("m", "a"));
    assert("mai"@.take(1) =~= "m"@);
    assert("mai"@.skip(1) =~= "ai"@);
    lemma_insert(m1, "mai"@, ("m", "ai"));
    let m2 = m1.insert("mai"@, ("m", "ai"));
    assert("man"@.take(1) =~= "m"@);
    assert("man"@.skip(1) =~= "an"@);
    lemma_insert(m2, "man"@, ("m", "an"));
    let m3 = m2.insert("man"@, ("m", "an"));
    assert("mang"@.take(1) =~= "m"@);
    assert("mang"@.skip(1) =~= "ang"@);
    lemma_insert(m3, "mang"@, ("m", "ang"));
    let m4 = m3.insert("mang"@, ("m", "ang"));
    assert("mao"@.take(1) =~= "m"@);
    assert("mao"@.skip(1) =~= "ao"@);
    lemma_insert(m4, "mao"@, ("m", "ao"));
    let m5 = m4.insert("mao"@, ("m", "ao"));
    assert("me"@.take(1) =~= "m"@);
    assert("me"@.skip(1) =~= "e"@);
    lemma_insert(m5, "me"@, ("m", "e"));
    let m6 = m5.insert("me"@, ("m", "e"));
    assert("mei"@.take(1) =~= "m"@);
    assert("e"@ =~= final_of("m"@, "mei"@.skip(1)));
    lemma_insert(m6, "mei"@, ("m", "e"));
    let m7 = m6.insert("mei"@, ("m", "e"));
    assert("men"@.take(1) =~= "m"@);
    assert("men"@.skip(1) =~= "en"@);
    lemma_insert(m7, "men"@, ("m", "en"));
    let m8 = m7.insert("men"@, ("m", "en"));
    assert("meng"@.take(1) =~= "m"@);
    assert("meng"@.skip(1) =~= "eng"@);
    lemma_insert(m8, "meng"@, ("m", "eng"));
    let m9 = m8.insert("meng"@, ("m", "eng"));
    assert("mi"@.take(1) =~= "m"@);
    assert("mi"@.skip(1) =~= "i"@);
    lemma_insert(m9, "mi"@, ("m", "i"));
    let m10 = m9.insert("mi"@, ("m", "i"));
    assert("mian"@.take(1) =~= "m"@);
    assert("mian"@.skip(1) =~= "ian"@);
    lemma_insert(m10, "mian"@, ("m", "ian"));
    let m11 = m10.insert("mian"@, ("m", "ian"));
    assert("miao"@.take(1) =~= "m"@);
    assert("miao"@.skip(1) =~= "iao"@);
    lemma_insert(m11, "miao"@, ("m", "iao"));
    let m12 = m11.insert("miao"@, ("m", "iao"));
    assert("mie"@.take(1) =~= "m"@);
    assert("mie"@.skip(1) =~= "ie"@);
    lemma_insert(m12, "mie"@, ("m", "ie"));
    let m13 = m12.insert("mie"@, ("m", "ie"));
    assert("min"@.take(1) =~= "m"@);
    assert("min"@.skip(1) =~= "in"@);
    lemma_insert(m13, "min"@, ("m", "in"));
    let m14 = m13.insert("min"@, ("m", "in"));
    assert("ming"@.take(1) =~= "m"@);
    assert("ming"@.skip(1) =~= "ing"@);
    lemma_insert(m14, "ming"@, ("m", "ing"));
    let m15 = m14.insert("ming"@, ("m", "ing"));
    assert("miu"@.take(1) =~= "m"@);
    assert("miu"@.skip(1) =~= "iu"@);
    lemma_insert(m15, "miu"@, ("m", "iu"));
    let m16 = m15.insert("miu"@, ("m", "iu"));
    assert("mo"@.take(1) =~= "m"@);
    assert("mo"@.skip(1) =~= "o"@);
    lemma_insert(m16, "mo"@, ("m", "o"));
    let m17 = m16.insert("mo"@, ("m", "o"));
    assert("mou"@.take(1) =~= "m"@);
    assert("mou"@.skip(1) =~= "ou"@);
    lemma_insert(m17, "mou"@, ("m", "ou"));
    let m18 = m17.insert("mou"@, ("m", "ou"));
    assert("mu"@.take(1) =~= "m"@);
    assert("mu"@.skip(1) =~= "u"@);
    lemma_insert(m18, "mu"@, ("m", "u"));
    let m19 = m18.insert("mu"@, ("m", "u"));
}

proof fn lemma_n(m: Map<Seq<char>, (&'static str, &'static str)>)
    requires
        all_spelled(m),
    ensures
        all_spelled(syllables_n(m)),
{
    reveal_strlit("na");
    reveal_strlit("n");
    reveal_strlit("a");
    reveal_strlit("nai");
    reveal_strlit("ai");
    reveal_strlit("nan");
    reveal_strlit("an");
    reveal_strlit("nang");
    reveal_strlit("ang");
    reveal_strlit("nao");
    reveal_strlit("ao");
    reveal_strlit("ne");
    reveal_strlit("e");
    reveal_strlit("nei");
    reveal_strlit("nen");
    reveal_strlit("en");
    reveal_strlit("neng");
    reveal_strlit("eng");
    reveal_strlit("ni");
    reveal_strlit("i");
    reveal_strlit("nian");
    reveal_strlit("ian");
    reveal_strlit("niang");
    reveal_strlit("iang");
    reveal_strlit("niao");
    reveal_strlit("iao");
    reveal_strlit("nie");
    reveal_strlit("ie");
    reveal_strlit("nin");
    reveal_strlit("in");
    reveal_strlit("ning");
    reveal_strlit("ing");
    reveal_strlit("niu");
    reveal_strlit("iu");
    reveal_strlit("nong");
    reveal_strlit("ong");
    reveal_strlit("nou");
    reveal_strlit("ou");
    reveal_strlit("nu");
    reveal_strlit("u");
    reveal_strlit("nv");
    reveal_strlit("v");
    reveal_strlit("nuan");
    reveal_strlit("uan");
    reveal_strlit("nve");
    reveal_strlit("ve");
    reveal_strlit("nue");
    reveal_strlit("nun");
    reveal_strlit("un");
    reveal_strlit("nuo");
    reveal_strlit("uo");
    assert("na"@.take(1) =~= "n"@);
    assert("na"@.skip(1) =~= "a"@);
    lemma_insert(m, "na"@, ("n", "a"));
    let m1 = m.insert("na"@, ("n", "a"));
    assert("nai"@.take(1) =~= "n"@);
    assert("nai"@.skip(1) =~= "ai"@);
    lemma_insert(m1, "nai"@, ("n", "ai"));
    let m2 = m1.insert("nai"@, ("n", "ai"));
    assert("nan"@.take(1) =~= "n"@);
    assert("nan"@.skip(1) =~= "an"@);
    lemma_insert(m2, "nan"@, ("n", "an"));
    let m3 = m2.insert("nan"@, ("n", "an"));
    assert("nang"@.take(1) =~= "n"@);
    assert("nang"@.skip(1) =~= "ang"@);
    lemma_insert(m3, "nang"@, ("n", "ang"));
    let m4 = m3.insert("nang"@, ("n", "ang"));
    assert("nao"@.take(1) =~= "n"@);
    assert("nao"@.skip(1) =~= "ao"@);
    lemma_insert(m4, "nao"@, ("n", "ao"));
    let m5 = m4.insert("nao"@, ("n", "ao"));
    assert("ne"@.take(1) =~= "n"@);
    assert("ne"@.skip(1) =~= "e"@);
    lemma_insert(m5, "ne"@, ("n", "e"));
    let m6 = m5.insert("ne"@, ("n", "e"));
    assert("nei"@.take(1) =~= "n"@);
    assert("e"@ =~= final_of("n"@, "nei"@.skip(1)));
    lemma_insert(m6, "nei"@, ("n", "e"));
    let m7 = m6.insert("nei"@, ("n", "e"));
    assert("nen"@.take(1) =~= "n"@);
    assert("nen"@.skip(1) =~= "en"@);
    lemma_insert(m7, "nen"@, ("n", "en"));
    let m8 = m7.insert("nen"@, ("n", "en"));
    assert("neng"@.take(1) =~= "n"@);
    assert("neng"@.skip(1) =~= "eng"@);
    lemma_insert(m8, "neng"@, ("n", "eng"));
    let m9 = m8.insert("neng"@, ("n", "eng"));
    assert("ni"@.take(1) =~= "n"@);
    assert("ni"@.skip(1) =~= "i"@);
    lemma_insert(m9, "ni"@, ("n", "i"));
    let m10 = m9.insert("ni"@, ("n", "i"));
    assert("nian"@.take(1) =~= "n"@);
    assert("nian"@.skip(1) =~= "ian"@);
    lemma_insert(m10, "nian"@, ("n", "ian"));
    let m11 = m10.insert("nian"@, ("n", "ian"));
    assert("niang"@.take(1) =~= "n"@);
    assert("niang"@.skip(1) =~= "iang"@);
    lemma_insert(m11, "niang"@, ("n", "iang"));
    let m12 = m11.insert("niang"@, ("n", "iang"));
    assert("niao"@.take(1) =~= "n"@);
    assert("niao"@.skip(1) =~= "iao"@);
    lemma_insert(m12, "niao"@, ("n", "iao"));
    let m13 = m12.insert("niao"@, ("n", "iao"));
    assert("nie"@.take(1) =~= "n"@);
    assert("nie"@.skip(1) =~= "ie"@);
    lemma_insert(m13, "nie"@, ("n", "ie"));
    let m14 = m13.insert("nie"@, ("n", "ie"));
    assert("nin"@.take(1) =~= "n"@);
    assert("nin"@.skip(1) =~= "in"@);
    lemma_insert(m14, "nin"@, ("n", "in"));
    let m15 = m14.insert("nin"@, ("n", "in"));
    assert("ning"@.take(1) =~= "n"@);
    assert("ning"@.skip(1) =~= "ing"@);
    lemma_insert(m15, "ning"@, ("n", "ing"));
    let m16 = m15.insert("ning"@, ("n", "ing"));
    assert("niu"@.take(1) =~= "n"@);
    assert("niu"@.skip(1) =~= "iu"@);
    lemma_insert(m16, "niu"@, ("n", "iu"));
    let m17 = m16.insert("niu"@, ("n", "iu"));
    assert("nong"@.take(1) =~= "n"@);
    assert("nong"@.skip(1) =~= "ong"@);
    lemma_insert(m17, "nong"@, ("n", "ong"));
    let m18 = m17.insert("nong"@, ("n", "ong"));
    assert("nou"@.take(1) =~= "n"@);
    assert("nou"@.skip(1) =~= "ou"@);
    lemma_insert(m18, "nou"@, ("n", "ou"));
    let m19 = m18.insert("nou"@, ("n", "ou"));
    assert("nu"@.take(1) =~= "n"@);
    assert("nu"@.skip(1) =~= "u"@);
    lemma_insert(m19, "nu"@, ("n", "u"));
    let m20 = m19.insert("nu"@, ("n", "u"));
    assert("nv"@.take(1) =~= "n"@);
    assert("nv"@.skip(1) =~= "v"@);
    lemma_insert(m20, "nv"@, ("n", "v"));
    let m21 = m20.insert("nv"@, ("n", "v"));
    assert("nuan"@.take(1) =~= "n"@);
    assert("nuan"@.skip(1) =~= "uan"@);
    lemma_insert(m21, "nuan"@, ("n", "uan"));
    let m22 = m21.insert("nuan"@, ("n", "uan"));
    assert("nve"@.take(1) =~= "n"@);
    assert("nve"@.skip(1) =~= "ve"@);
    lemma_insert(m22, "nve"@, ("n", "ve"));
    let m23 = m22.insert("nve"@, ("n", "ve"));
    assert("nue"@.take(1) =~= "n"@);
    assert("ve"@ =~= final_of("n"@, "nue"@.skip(1)));
    lemma_insert(m23, "nue"@, ("n", "ve"));
    let m24 = m23.insert("nue"@, ("n", "ve"));
    assert("nun"@.take(1) =~= "n"@);
    assert("nun"@.skip(1) =~= "un"@);
    lemma_insert(m24, "nun"@, ("n", "un"));
    let m25 = m24.insert("nun"@, ("n", "un"));
    assert("nuo"@.take(1) =~= "n"@);
    assert("nuo"@.skip(1) =~= "uo"@);
    lemma_insert(m25, "nuo"@, ("n", "uo"));
    let m26 = m25.insert("nuo"@, ("n", "uo"));
}

proof fn lemma_p(m: Map<Seq<char>, (&'static str, &'static str)>)
    requires
        all_spelled(m),
    ensures
        all_spelled(syllables_p(m)),
{
    reveal_strlit("pa");
    reveal_strlit("p");
    reveal_strlit("a");
    reveal_strlit("pai");
    reveal_strlit("ai");
    reveal_strlit("pan");
    reveal_strlit("an");
    reveal_strlit("pang");
    reveal_strlit("ang");
    reveal_strlit("pao");
    reveal_strlit("ao");
    reveal_strlit("pei");
    reveal_strlit("e");
    reveal_strlit("pen");
    reveal_strlit("en");
    reveal_strlit("peng");
    reveal_strlit("eng");
    reveal_strlit("pi");
    reveal_strlit("i");
    reveal_strlit("pian");
    reveal_strlit("ian");
    reveal_strlit("piao");
    reveal_strlit("iao");
    reveal_strlit("pie");
    reveal_strlit("ie");
    reveal_strlit("pin");
    reveal_strlit("in");
    reveal_strlit("ping");
    reveal_strlit("ing");
    reveal_strlit("po");
    reveal_strlit("o");
    reveal_strlit("pou");
    reveal_strlit("ou");
    reveal_strlit("pu");
    reveal_strlit("u");
    assert("pa"@.take(1) =~= "p"@);
    assert("pa"@.skip(1) =~= "a"@);
    lemma_insert(m, "pa"@, ("p", "a"));
    let m1 = m.insert("pa"@, ("p", "a"));
    assert("pai"@.take(1) =~= "p"@);
    assert("pai"@.skip(1) =~= "ai"@);
    lemma_insert(m1, "pai"@, ("p", "ai"));
    let m2 = m1.insert("pai"@, ("p", "ai"));
    assert("pan"@.take(1) =~= "p"@);
    assert("pan"@.skip(1) =~= "an"@);
    lemma_insert(m2, "pan"@, ("p", "an"));
    let m3 = m2.insert("pan"@, ("p", "an"));
    assert("pang"@.take(1) =~= "p"@);
    assert("pang"@.skip(1) =~= "ang"@);
    lemma_insert(m3, "pang"@, ("p", "ang"));
    let m4 = m3.insert("pang"@, ("p", "ang"));
    assert("pao"@.take(1) =~= "p"@);
    assert("pao"@.skip(1) =~= "ao"@);
    lemma_insert(m4, "pao"@, ("p", "ao"));
    let m5 = m4.insert("pao"@, ("p", "ao"));
    assert("pei"@.take(1) =~= "p"@);
    assert("e"@ =~= final_of("p"@, "pei"@.skip(1)));
    lemma_insert(m5, "pei"@, ("p", "e"));
    let m6 = m5.insert("pei"@, ("p", "e"));
    assert("pen"@.take(1) =~= "p"@);
    assert("pen"@.skip(1) =~= "en"@);
    lemma_insert(m6, "pen"@, ("p", "en"));
    let m7 = m6.insert("pen"@, ("p", "en"));
    assert("peng"@.take(1) =~= "p"@);
    assert("peng"@.skip(1) =~= "eng"@);
    lemma_insert(m7, "peng"@, ("p", "eng"));
    let m8 = m7.insert("peng"@, ("p", "eng"));
    assert("pi"@.take(1) =~= "p"@);
    assert("pi"@.skip(1) =~= "i"@);
    lemma_insert(m8, "pi"@, ("p", "i"));
    let m9 = m8.insert("pi"@, ("p", "i"));
    assert("pian"@.take(1) =~= "p"@);
    assert("pian"@.skip(1) =~= "ian"@);
    lemma_insert(m9, "pian"@, ("p", "ian"));
    let m10 = m9.insert("pian"@, ("p", "ian"));
    assert("piao"@.take(1) =~= "p"@);
    assert("piao"@.skip(1) =~= "iao"@);
    lemma_insert(m10, "piao"@, ("p", "iao"));
    let m11 = m10.insert("piao"@, ("p", "iao"));
    assert("pie"@.take(1) =~= "p"@);
    assert("pie"@.skip(1) =~= "ie"@);
    lemma_insert(m11, "pie"@, ("p", "ie"));
    let m12 = m11.insert("pie"@, ("p", "ie"));
    assert("pin"@.take(1) =~= "p"@);
    assert("pin"@.skip(1) =~= "in"@);
    lemma_insert(m12, "pin"@, ("p", "in"));
    let m13 = m12.insert("pin"@, ("p", "in"));
    assert("ping"@.take(1) =~= "p"@);
    assert("ping"@.skip(1) =~= "ing"@);
    lemma_insert(m13, "ping"@, ("p", "ing"));
    let m14 = m13.insert("ping"@, ("p", "ing"));
    assert("po"@.take(1) =~= "p"@);
    assert("po"@.skip(1) =~= "o"@);
    lemma_insert(m14, "po"@, ("p", "o"));
    let m15 = m14.insert("po"@, ("p", "o"));
    assert("pou"@.take(1) =~= "p"@);
    assert("pou"@.skip(1) =~= "ou"@);
    lemma_insert(m15, "pou"@, ("p", "ou"));
    let m16 = m15.insert("pou"@, ("p", "ou"));
    assert("pu"@.take(1) =~= "p"@);
    assert("pu"@.skip(1) =~= "u"@);
    lemma_insert(m16, "pu"@, ("p", "u"));
    let m17 = m16.insert("pu"@, ("p", "u"));
}

proof fn lemma_q(m: Map<Seq<char>, (&'static str, &'static str)>)
    requires
        all_spelled(m),
    ensures
        all_spelled(syllables_q(m)),
{
    reveal_strlit("qi");
    reveal_strlit("q");
    reveal_strlit("i");
    reveal_strlit("qia");
    reveal_strlit("ia");
    reveal_strlit("qian");
    reveal_strlit("ian");
    reveal_strlit("qiang");
    reveal_strlit("iang");
    reveal_strlit("qiao");
    reveal_strlit("iao");
    reveal_strlit("qie");
    reveal_strlit("ie");
    reveal_strlit("qin");
    reveal_strlit("in");
    reveal_strlit("qing");
    reveal_strlit("ing");
    reveal_strlit("qiong");
    reveal_strlit("iong");
    reveal_strlit("qiu");
    reveal_strlit("iu");
    reveal_strlit("qu");
    reveal_strlit("v");
    reveal_strlit("quan");
    reveal_strlit("van");
    reveal_strlit("que");
    reveal_strlit("ve");
    reveal_strlit("qun");
    reveal_strlit("vn");
    assert("qi"@.take(1) =~= "q"@);
    assert("qi"@.skip(1) =~= "i"@);
    lemma_insert(m, "qi"@, ("q", "i"));
    let m1 = m.insert("qi"@, ("q", "i"));
    assert("qia"@.take(1) =~= "q"@);
    assert("qia"@.skip(1) =~= "ia"@);
    lemma_insert(m1, "qia"@, ("q", "ia"));
    let m2 = m1.insert("qia"@, ("q", "ia"));
    assert("qian"@.take(1) =~= "q"@);
    assert("qian"@.skip(1) =~= "ian"@);
    lemma_insert(m2, "qian"@, ("q", "ian"));
    let m3 = m2.insert("qian"@, ("q", "ian"));
    assert("qiang"@.take(1) =~= "q"@);
    assert("qiang"@.skip(1) =~= "iang"@);
    lemma_insert(m3, "qiang"@, ("q", "iang"));
    let m4 = m3.insert("qiang"@, ("q", "iang"));
    assert("qiao"@.take(1) =~= "q"@);
    assert("qiao"@.skip(1) =~= "iao"@);
    lemma_insert(m4, "qiao"@, ("q", "iao"));
    let m5 = m4.insert("qiao"@, ("q", "iao"));
    assert("qie"@.take(1) =~= "q"@);
    assert("qie"@.skip(1) =~= "ie"@);
    lemma_insert(m5, "qie"@, ("q", "ie"));
    let m6 = m5.insert("qie"@, ("q", "ie"));
    assert("qin"@.take(1) =~= "q"@);
    assert("qin"@.skip(1) =~= "in"@);
    lemma_insert(m6, "qin"@, ("q", "in"));
    let m7 = m6.insert("qin"@, ("q", "in"));
    assert("qing"@.take(1) =~= "q"@);
    assert("qing"@.skip(1) =~= "ing"@);
    lemma_insert(m7, "qing"@, ("q", "ing"));
    let m8 = m7.insert("qing"@, ("q", "ing"));
    assert("qiong"@.take(1) =~= "q"@);
    assert("qiong"@.skip(1) =~= "iong"@);
    lemma_insert(m8, "qiong"@, ("q", "iong"));
    let m9 = m8.insert("qiong"@, ("q", "iong"));
    assert("qiu"@.take(1) =~= "q"@);
    assert("qiu"@.skip(1) =~= "iu"@);
    lemma_insert(m9, "qiu"@, ("q", "iu"));
    let m10 = m9.insert("qiu"@, ("q", "iu"));
    assert("qu"@.take(1) =~= "q"@);
    assert("v"@ =~= final_of("q"@, "qu"@.skip(1)));
    lemma_insert(m10, "qu"@, ("q", "v"));
    let m11 = m10.insert("qu"@, ("q", "v"));
    assert("quan"@.take(1) =~= "q"@);
    assert("van"@ =~= final_of("q"@, "quan"@.skip(1)));
    lemma_insert(m11, "quan"@, ("q", "van"));
    let m12 = m11.insert("quan"@, ("q", "van"));
    assert("que"@.take(1) =~= "q"@);
    assert("ve"@ =~= final_of("q"@, "que"@.skip(1)));
    lemma_insert(m12, "que"@, ("q", "ve"));
    let m13 = m12.insert("que"@, ("q", "ve"));
    assert("qun"@.take(1) =~= "q"@);
    assert("vn"@ =~= final_of("q"@, "qun"@.skip(1)));
    lemma_insert(m13, "qun"@, ("q", "vn"));
    let m14 = m13.insert("qun"@, ("q", "vn"));
}

proof fn lemma_r(m: Map<Seq<char>, (&'static str, &'static str)>)
    requires
        all_spelled(m),
    ensures
        all_spelled(syllables_r(m)),
{
    reveal_strlit("ran");
    reveal_strlit("r");
    reveal_strlit("an");
    reveal_strlit("rang");
    reveal_strlit("ang");
    reveal_strlit("rao");
    reveal_strlit("ao");
    reveal_strlit("re");
    reveal_strlit("e");
    reveal_strlit("ren");
    reveal_strlit("en");
    reveal_strlit("reng");
    reveal_strlit("eng");
    reveal_strlit("ri");
    reveal_strlit("ir");
    reveal_strlit("rong");
    reveal_strlit("ong");
    reveal_strlit("rou");
    reveal_strlit("ou");
    reveal_strlit("ru");
    reveal_strlit("u");
    reveal_strlit("ruan");
    reveal_strlit("uan");
    reveal_strlit("rui");
    reveal_strlit("ui");
    reveal_strlit("run");
    reveal_strlit("un");
    reveal_strlit("ruo");
    reveal_strlit("uo");
    assert("ran"@.take(1) =~= "r"@);
    assert("ran"@.skip(1) =~= "an"@);
    lemma_insert(m, "ran"@, ("r", "an"));
    let m1 = m.insert("ran"@, ("r", "an"));
    assert("rang"@.take(1) =~= "r"@);
    assert("rang"@.skip(1) =~= "ang"@);
    lemma_insert(m1, "rang"@, ("r", "ang"));
    let m2 = m1.insert("rang"@, ("r", "ang"));
    assert("rao"@.take(1) =~= "r"@);
    assert("rao"@.skip(1) =~= "ao"@);
    lemma_insert(m2, "rao"@, ("r", "ao"));
    let m3 = m2.insert("rao"@, ("r", "ao"));
    assert("re"@.take(1) =~= "r"@);
    assert("re"@.skip(1) =~= "e"@);
    lemma_insert(m3, "re"@, ("r", "e"));
    let m4 = m3.insert("re"@, ("r", "e"));
    assert("ren"@.take(1) =~= "r"@);
    assert("ren"@.skip(1) =~= "en"@);
    lemma_insert(m4, "ren"@, ("r", "en"));
    let m5 = m4.insert("ren"@, ("r", "en"));
    assert("reng"@.take(1) =~= "r"@);
    assert("reng"@.skip(1) =~= "eng"@);
    lemma_insert(m5, "reng"@, ("r", "eng"));
    let m6 = m5.insert("reng"@, ("r", "eng"));
    assert("ri"@.take(1) =~= "r"@);
    assert("ir"@ =~= final_of("r"@, "ri"@.skip(1)));
    lemma_insert(m6, "ri"@, ("r", "ir"));
    let m7 = m6.insert("ri"@, ("r", "ir"));
    assert("rong"@.take(1) =~= "r"@);
    assert("rong"@.skip(1) =~= "ong"@);
    lemma_insert(m7, "rong"@, ("r", "ong"));
    let m8 = m7.insert("rong"@, ("r", "ong"));
    assert("rou"@.take(1) =~= "r"@);
    assert("rou"@.skip(1) =~= "ou"@);
    lemma_insert(m8, "rou"@, ("r", "ou"));
    let m9 = m8.insert("rou"@, ("r", "ou"));
    assert("ru"@.take(1) =~= "r"@);
    assert("ru"@.skip(1) =~= "u"@);
    lemma_insert(m9, "ru"@, ("r", "u"));
    let m10 = m9.insert("ru"@, ("r", "u"));
    assert("ruan"@.take(1) =~= "r"@);
    assert("ruan"@.skip(1) =~= "uan"@);
    lemma_insert(m10, "ruan"@, ("r", "uan"));
    let m11 = m10.insert("ruan"@, ("r", "uan"));
    assert("rui"@.take(1) =~= "r"@);
    assert("rui"@.skip(1) =~= "ui"@);
    lemma_insert(m11, "rui"@, ("r", "ui"));
    let m12 = m11.insert("rui"@, ("r", "ui"));
    assert("run"@.take(1) =~= "r"@);
    assert("run"@.skip(1) =~= "un"@);
    lemma_insert(m12, "run"@, ("r", "un"));
    let m13 = m12.insert("run"@, ("r", "un"));
    assert("ruo"@.take(1) =~= "r"@);
    assert("ruo"@.skip(1) =~= "uo"@);
    lemma_insert(m13, "ruo"@, ("r", "uo"));
    let m14 = m13.insert("ruo"@, ("r", "uo"));
}

proof fn lemma_s(m: Map<Seq<char>, (&'static str, &'static str)>)
    requires
        all_spelled(m),
    ensures
        all_spelled(syllables_s(m)),
{
    reveal_strlit("sa");
    reveal_strlit("s");
    reveal_strlit("a");
    reveal_strlit("sai");
    reveal_strlit("ai");
    reveal_strlit("san");
    reveal_strlit("an");
    reveal_strlit("sang");
    reveal_strlit("ang");
    reveal_strlit("sao");
    reveal_strlit("ao");
    reveal_strlit("se");
    reveal_strlit("e");
    reveal_strlit("sei");
    reveal_strlit("sen");
    reveal_strlit("en");
    reveal_strlit("seng");
    reveal_strlit("eng");
    reveal_strlit("si");
    reveal_strlit("ir");
    reveal_strlit("song");
    reveal_strlit("ong");
    reveal_strlit("sou");
    reveal_strlit("ou");
    reveal_strlit("su");
    reveal_strlit("u");
    reveal_strlit("suan");
    reveal_strlit("uan");
    reveal_strlit("sui");
    reveal_strlit("ui");
    reveal_strlit("sun");
    reveal_strlit("un");
    reveal_strlit("suo");
    reveal_strlit("uo");
    assert("sa"@.take(1) =~= "s"@);
    assert("sa"@.skip(1) =~= "a"@);
    lemma_insert(m, "sa"@, ("s", "a"));
    let m1 = m.insert("sa"@, ("s", "a"));
    assert("sai"@.take(1) =~= "s"@);
    assert("sai"@.skip(1) =~= "ai"@);
    lemma_insert(m1, "sai"@, ("s", "ai"));
    let m2 = m1.insert("sai"@, ("s", "ai"));
    assert("san"@.take(1) =~= "s"@);
    assert("san"@.skip(1) =~= "an"@);
    lemma_insert(m2, "san"@, ("s", "an"));
    let m3 = m2.insert("san"@, ("s", "an"));
    assert("sang"@.take(1) =~= "s"@);
    assert("sang"@.skip(1) =~= "ang"@);
    lemma_insert(m3, "sang"@, ("s", "ang"));
    let m4 = m3.insert("sang"@, ("s", "ang"));
    assert("sao"@.take(1) =~= "s"@);
    assert("sao"@.skip(1) =~= "ao"@);
    lemma_insert(m4, "sao"@, ("s", "ao"));
    let m5 = m4.insert("sao"@, ("s", "ao"));
    assert("se"@.take(1) =~= "s"@);
    assert("se"@.skip(1) =~= "e"@);
    lemma_insert(m5, "se"@, ("s", "e"));
    let m6 = m5.insert("se"@, ("s", "e"));
    assert("sei"@.take(1) =~= "s"@);
    assert("e"@ =~= final_of("s"@, "sei"@.skip(1)));
    lemma_insert(m6, "sei"@, ("s", "e"));
    let m7 = m6.insert("sei"@, ("s", "e"));
    assert("sen"@.take(1) =~= "s"@);
    assert("sen"@.skip(1) =~= "en"@);
    lemma_insert(m7, "sen"@, ("s", "en"));
    let m8 = m7.insert("sen"@, ("s", "en"));
    assert("seng"@.take(1) =~= "s"@);
    assert("seng"@.skip(1) =~= "eng"@);
    lemma_insert(m8, "seng"@, ("s", "eng"));
    let m9 = m8.insert("seng"@, ("s", "eng"));
    assert("si"@.take(1) =~= "s"@);
    assert("ir"@ =~= final_of("s"@, "si"@.skip(1)));
    lemma_insert(m9, "si"@, ("s", "ir"));
    let m10 = m9.insert("si"@, ("s", "ir"));
    assert("song"@.take(1) =~= "s"@);
    assert("song"@.skip(1) =~= "ong"@);
    lemma_insert(m10, "song"@, ("s", "ong"));
    let m11 = m10.insert("song"@, ("s", "ong"));
    assert("sou"@.take(1) =~= "s"@);
    assert("sou"@.skip(1) =~= "ou"@);
    lemma_insert(m11, "sou"@, ("s", "ou"));
    let m12 = m11.insert("sou"@, ("s", "ou"));
    assert("su"@.take(1) =~= "s"@);
    assert("su"@.skip(1) =~= "u"@);
    lemma_insert(m12, "su"@, ("s", "u"));
    let m13 = m12.insert("su"@, ("s", "u"));
    assert("suan"@.take(1) =~= "s"@);
    assert("suan"@.skip(1) =~= "uan"@);
    lemma_insert(m13, "suan"@, ("s", "uan"));
    let m14 = m13.insert("suan"@, ("s", "uan"));
    assert("sui"@.take(1) =~= "s"@);
    assert("sui"@.skip(1) =~= "ui"@);
    lemma_insert(m14, "sui"@, ("s", "ui"));
    let m15 = m14.insert("sui"@, ("s", "ui"));
    assert("sun"@.take(1) =~= "s"@);
    assert("sun"@.skip(1) =~= "un"@);
    lemma_insert(m15, "sun"@, ("s", "un"));
    let m16 = m15.insert("sun"@, ("s", "un"));
    assert("suo"@.take(1) =~= "s"@);
    assert("suo"@.skip(1) =~= "uo"@);
    lemma_insert(m16, "suo"@, ("s", "uo"));
    let m17 = m16.insert("suo"@, ("s", "uo"));
}

proof fn lemma_t(m: Map<Seq<char>, (&'static str, &'static str)>)
    requires
        all_spelled(m),
    ensures
        all_spelled(syllables_t(m)),
{
    reveal_strlit("ta");
    reveal_strlit("t");
    reveal_strlit("a");
    reveal_strlit("tai");
    reveal_strlit("ai");
    reveal_strlit("tan");
    reveal_strlit("an");
    reveal_strlit("tang");
    reveal_strlit("ang");
    reveal_strlit("tao");
    reveal_strlit("ao");
    reveal_strlit("te");
    reveal_strlit("e");
    reveal_strlit("tei");
    reveal_strlit("teng");
    reveal_strlit("eng");
    reveal_strlit("ti");
    reveal_strlit("i");
    reveal_strlit("tian");
    reveal_strlit("ian");
    reveal_strlit("tiao");
    reveal_strlit("iao");
    reveal_strlit("tie");
    reveal_strlit("ie");
    reveal_strlit("ting");
    reveal_strlit("ing");
    reveal_strlit("tong");
    reveal_strlit("ong");
    reveal_strlit("tou");
    reveal_strlit("ou");
    reveal_strlit("tu");
    reveal_strlit("u");
    reveal_strlit("tuan");
    reveal_strlit("uan");
    reveal_strlit("tui");
    reveal_strlit("ui");
    reveal_strlit("tun");
    reveal_strlit("un");
    reveal_strlit("tuo");
    reveal_strlit("uo");
    assert("ta"@.take(1) =~= "t"@);
    assert("ta"@.skip(1) =~= "a"@);
    lemma_insert(m, "ta"@, ("t", "a"));
    let m1 = m.insert("ta"@, ("t", "a"));
    assert("tai"@.take(1) =~= "t"@);
    assert("tai"@.skip(1) =~= "ai"@);
    lemma_insert(m1, "tai"@, ("t", "ai"));
    let m2 = m1.insert("tai"@, ("t", "ai"));
    assert("tan"@.take(1) =~= "t"@);
    assert("tan"@.skip(1) =~= "an"@);
    lemma_insert(m2, "tan"@, ("t", "an"));
    let m3 = m2.insert("tan"@, ("t", "an"));
    assert("tang"@.take(1) =~= "t"@);
    assert("tang"@.skip(1) =~= "ang"@);
    lemma_insert(m3, "tang"@, ("t", "ang"));
    let m4 = m3.insert("tang"@, ("t", "ang"));
    assert("tao"@.take(1) =~= "t"@);
    assert("tao"@.skip(1) =~= "ao"@);
    lemma_insert(m4, "tao"@, ("t", "ao"));
    let m5 = m4.insert("tao"@, ("t", "ao"));
    assert("te"@.take(1) =~= "t"@);
    assert("te"@.skip(1) =~= "e"@);
    lemma_insert(m5, "te"@, ("t", "e"));
    let m6 = m5.insert("te"@, ("t", "e"));
    assert("tei"@.take(1) =~= "t"@);
    assert("e"@ =~= final_of("t"@, "tei"@.skip(1)));
    lemma_insert(m6, "tei"@, ("t", "e"));
    let m7 = m6.insert("tei"@, ("t", "e"));
    assert("teng"@.take(1) =~= "t"@);
    assert("teng"@.skip(1) =~= "eng"@);
    lemma_insert(m7, "teng"@, ("t", "eng"));
    let m8 = m7.insert("teng"@, ("t", "eng"));
    assert("ti"@.take(1) =~= "t"@);
    assert("ti"@.skip(1) =~= "i"@);
    lemma_insert(m8, "ti"@, ("t", "i"));
    let m9 = m8.insert("ti"@, ("t", "i"));
    assert("tian"@.take(1) =~= "t"@);
    assert("tian"@.skip(1) =~= "ian"@);
    lemma_insert(m9, "tian"@, ("t", "ian"));
    let m10 = m9.insert("tian"@, ("t", "ian"));
    assert("tiao"@.take(1) =~= "t"@);
    assert("tiao"@.skip(1) =~= "iao"@);
    lemma_insert(m10, "tiao"@, ("t", "iao"));
    let m11 = m10.insert("tiao"@, ("t", "iao"));
    assert("tie"@.take(1) =~= "t"@);
    assert("tie"@.skip(1) =~= "ie"@);
    lemma_insert(m11, "tie"@, ("t", "ie"));
    let m12 = m11.insert("tie"@, ("t", "ie"));
    assert("ting"@.take(1) =~= "t"@);
    assert("ting"@.skip(1) =~= "ing"@);
    lemma_insert(m12, "ting"@, ("t", "ing"));
    let m13 = m12.insert("ting"@, ("t", "ing"));
    assert("tong"@.take(1) =~= "t"@);
    assert("tong"@.skip(1) =~= "ong"@);
    lemma_insert(m13, "tong"@, ("t", "ong"));
    let m14 = m13.insert("tong"@, ("t", "ong"));
    assert("tou"@.take(1) =~= "t"@);
    assert("tou"@.skip(1) =~= "ou"@);
    lemma_insert(m14, "tou"@, ("t", "ou"));
    let m15 = m14.insert("tou"@, ("t", "ou"));
    assert("tu"@.take(1) =~= "t"@);
    assert("tu"@.skip(1) =~= "u"@);
    lemma_insert(m15, "tu"@, ("t", "u"));
    let m16 = m15.insert("tu"@, ("t", "u"));
    assert("tuan"@.take(1) =~= "t"@);
    assert("tuan"@.skip(1) =~= "uan"@);
    lemma_insert(m16, "tuan"@, ("t", "uan"));
    let m17 = m16.insert("tuan"@, ("t", "uan"));
    assert("tui"@.take(1) =~= "t"@);
    assert("tui"@.skip(1) =~= "ui"@);
    lemma_insert(m17, "tui"@, ("t", "ui"));
    let m18 = m17.insert("tui"@, ("t", "ui"));
    assert("tun"@.take(1) =~= "t"@);
    assert("tun"@.skip(1) =~= "un"@);
    lemma_insert(m18, "tun"@, ("t", "un"));
    let m19 = m18.insert("tun"@, ("t", "un"));
    assert("tuo"@.take(1) =~= "t"@);
    assert("tuo"@.skip(1) =~= "uo"@);
    lemma_insert(m19, "tuo"@, ("t", "uo"));
    let m20 = m19.insert("tuo"@, ("t", "uo"));
}

proof fn lemma_w(m: Map<Seq<char>, (&'static str, &'static str)>)
    requires
        all_spelled(m),
    ensures
        all_spelled(syllables_w(m)),
{
    reveal_strlit("wa");
    reveal_strlit("w");
    reveal_strlit("a");
    reveal_strlit("wai");
    reveal_strlit("ai");
    reveal_strlit("wan");
    reveal_strlit("an");
    reveal_strlit("wang");
    reveal_strlit("ang");
    reveal_strlit("wei");
    reveal_strlit("e");
    reveal_strlit("wen");
    reveal_strlit("en");
    reveal_strlit("weng");
    reveal_strlit("eng");
    reveal_strlit("wo");
    reveal_strlit("o");
    reveal_strlit("wu");
    reveal_strlit("u");
    assert("wa"@.take(1) =~= "w"@);
    assert("wa"@.skip(1) =~= "a"@);
    lemma_insert(m, "wa"@, ("w", "a"));
    let m1 = m.insert("wa"@, ("w", "a"));
    assert("wai"@.take(1) =~= "w"@);
    assert("wai"@.skip(1) =~= "ai"@);
    lemma_insert(m1, "wai"@, ("w", "ai"));
    let m2 = m1.insert("wai"@, ("w", "ai"));
    assert("wan"@.take(1) =~= "w"@);
    assert("wan"@.skip(1) =~= "an"@);
    lemma_insert(m2, "wan"@, ("w", "an"));
    let m3 = m2.insert("wan"@, ("w", "an"));
    assert("wang"@.take(1) =~= "w"@);
    assert("wang"@.skip(1) =~= "ang"@);
    lemma_insert(m3, "wang"@, ("w", "ang"));
    let m4 = m3.insert("wang"@, ("w", "ang"));
    assert("wei"@.take(1) =~= "w"@);
    assert("e"@ =~= final_of("w"@, "wei"@.skip(1)));
    lemma_insert(m4, "wei"@, ("w", "e"));
    let m5 = m4.insert("wei"@, ("w", "e"));
    assert("wen"@.take(1) =~= "w"@);
    assert("wen"@.skip(1) =~= "en"@);
    lemma_insert(m5, "wen"@, ("w", "en"));
    let m6 = m5.insert("wen"@, ("w", "en"));
    assert("weng"@.take(1) =~= "w"@);
    assert("weng"@.skip(1) =~= "eng"@);
    lemma_insert(m6, "weng"@, ("w", "eng"));
    let m7 = m6.insert("weng"@, ("w", "eng"));
    assert("wo"@.take(1) =~= "w"@);
    assert("wo"@.skip(1) =~= "o"@);
    lemma_insert(m7, "wo"@, ("w", "o"));
    let m8 = m7.insert("wo"@, ("w", "o"));
    assert("wu"@.take(1) =~= "w"@);
    assert("wu"@.skip(1) =~= "u"@);
    lemma_insert(m8, "wu"@, ("w", "u"));
    let m9 = m8.insert("wu"@, ("w", "u"));
}

proof fn lemma_x(m: Map<Seq<char>, (&'static str, &'static str)>)
    requires
        all_spelled(m),
    ensures
        all_spelled(syllables_x(m)),
{
    reveal_strlit("xi");
    reveal_strlit("x");
    reveal_strlit("i");
    reveal_strlit("xia");
    reveal_strlit("ia");
    reveal_strlit("xian");
    reveal_strlit("ian");
    reveal_strlit("xiang");
    reveal_strlit("iang");
    reveal_strlit("xiao");
    reveal_strlit("iao");
    reveal_strlit("xie");
    reveal_strlit("ie");
    reveal_strlit("xin");
    reveal_strlit("in");
    reveal_strlit("xing");
    reveal_strlit("ing");
    reveal_strlit("xiong");
    reveal_strlit("iong");
    reveal_strlit("xiu");
    reveal_strlit("iu");
    reveal_strlit("xu");
    reveal_strlit("v");
    reveal_strlit("xuan");
    reveal_strlit("van");
    reveal_strlit("xue");
    reveal_strlit("ve");
    reveal_strlit("xun");
    reveal_strlit("vn");
    assert("xi"@.take(1) =~= "x"@);
    assert("xi"@.skip(1) =~= "i"@);
    lemma_insert(m, "xi"@, ("x", "i"));
    let m1 = m.insert("xi"@, ("x", "i"));
    assert("xia"@.take(1) =~= "x"@);
    assert("xia"@.skip(1) =~= "ia"@);
    lemma_insert(m1, "xia"@, ("x", "ia"));
    let m2 = m1.insert("xia"@, ("x", "ia"));
    assert("xian"@.take(1) =~= "x"@);
    assert("xian"@.skip(1) =~= "ian"@);
    lemma_insert(m2, "xian"@, ("x", "ian"));
    let m3 = m2.insert("xian"@, ("x", "ian"));
    assert("xiang"@.take(1) =~= "x"@);
    assert("xiang"@.skip(1) =~= "iang"@);
    lemma_insert(m3, "xiang"@, ("x", "iang"));
    let m4 = m3.insert("xiang"@, ("x", "iang"));
    assert("xiao"@.take(1) =~= "x"@);
    assert("xiao"@.skip(1) =~= "iao"@);
    lemma_insert(m4, "xiao"@, ("x", "iao"));
    let m5 = m4.insert("xiao"@, ("x", "iao"));
    assert("xie"@.take(1) =~= "x"@);
    assert("xie"@.skip(1) =~= "ie"@);
    lemma_insert(m5, "xie"@, ("x", "ie"));
    let m6 = m5.insert("xie"@, ("x", "ie"));
    assert("xin"@.take(1) =~= "x"@);
    assert("xin"@.skip(1) =~= "in"@);
    lemma_insert(m6, "xin"@, ("x", "in"));
    let m7 = m6.insert("xin"@, ("x", "in"));
    assert("xing"@.take(1) =~= "x"@);
    assert("xing"@.skip(1) =~= "ing"@);
    lemma_insert(m7, "xing"@, ("x", "ing"));
    let m8 = m7.insert("xing"@, ("x", "ing"));
    assert("xiong"@.take(1) =~= "x"@);
    assert("xiong"@.skip(1) =~= "iong"@);
    lemma_insert(m8, "xiong"@, ("x", "iong"));
    let m9 = m8.insert("xiong"@, ("x", "iong"));
    assert("xiu"@.take(1) =~= "x"@);
    assert("xiu"@.skip(1) =~= "iu"@);
    lemma_insert(m9, "xiu"@, ("x", "iu"));
    let m10 = m9.insert("xiu"@, ("x", "iu"));
    assert("xu"@.take(1) =~= "x"@);
    assert("v"@ =~= final_of("x"@, "xu"@.skip(1)));
    lemma_insert(m10, "xu"@, ("x", "v"));
    let m11 = m10.insert("xu"@, ("x", "v"));
    assert("xuan"@.take(1) =~= "x"@);
    assert("van"@ =~= final_of("x"@, "xuan"@.skip(1)));
    lemma_insert(m11, "xuan"@, ("x", "van"));
    let m12 = m11.insert("xuan"@, ("x", "van"));
    assert("xue"@.take(1) =~= "x"@);
    assert("ve"@ =~= final_of("x"@, "xue"@.skip(1)));
    lemma_insert(m12, "xue"@, ("x", "ve"));
    let m13 = m12.insert("xue"@, ("x", "ve"));
    assert("xun"@.take(1) =~= "x"@);
    assert("vn"@ =~= final_of("x"@, "xun"@.skip(1)));
    lemma_insert(m13, "xun"@, ("x", "vn"));
    let m14 = m13.insert("xun"@, ("x", "vn"));
}

proof fn lemma_y(m: Map<Seq<char>, (&'static str, &'static str)>)
    requires
        all_spelled(m),
    ensures
        all_spelled(syllables_y(m)),
{
    reveal_strlit("ya");
    reveal_strlit("y");
    reveal_strlit("a");
    reveal_strlit("yan");
    reveal_strlit("an");
    reveal_strlit("yang");
    reveal_strlit("ang");
    reveal_strlit("yao");
    reveal_strlit("ao");
    reveal_strlit("ye");
    reveal_strlit("e");
    reveal_strlit("yi");
    reveal_strlit("i");
    reveal_strlit("yin");
    reveal_strlit("in");
    reveal_strlit("ying");
    reveal_strlit("ing");
    reveal_strlit("yong");
    reveal_strlit("ong");
    reveal_strlit("you");
    reveal_strlit("ou");
    reveal_strlit("yu");
    reveal_strlit("v");
    reveal_strlit("yuan");
    reveal_strlit("van");
    reveal_strlit("yue");
    reveal_strlit("ve");
    reveal_strlit("yun");
    reveal_strlit("vn");
    assert("ya"@.take(1) =~= "y"@);
    assert("ya"@.skip(1) =~= "a"@);
    lemma_insert(m, "ya"@, ("y", "a"));
    let m1 = m.insert("ya"@, ("y", "a"));
    assert("yan"@.take(1) =~= "y"@);
    assert("yan"@.skip(1) =~= "an"@);
    lemma_insert(m1, "yan"@, ("y", "an"));
    let m2 = m1.insert("yan"@, ("y", "an"));
    assert("yang"@.take(1) =~= "y"@);
    assert("yang"@.skip(1) =~= "ang"@);
    lemma_insert(m2, "yang"@, ("y", "ang"));
    let m3 = m2.insert("yang"@, ("y", "ang"));
    assert("yao"@.take(1) =~= "y"@);
    assert("yao"@.skip(1) =~= "ao"@);
    lemma_insert(m3, "yao"@, ("y", "ao"));
    let m4 = m3.insert("yao"@, ("y", "ao"));
    assert("ye"@.take(1) =~= "y"@);
    assert("ye"@.skip(1) =~= "e"@);
    lemma_insert(m4, "ye"@, ("y", "e"));
    let m5 = m4.insert("ye"@, ("y", "e"));
    assert("yi"@.take(1) =~= "y"@);
    assert("yi"@.skip(1) =~= "i"@);
    lemma_insert(m5, "yi"@, ("y", "i"));
    let m6 = m5.insert("yi"@, ("y", "i"));
    assert("yin"@.take(1) =~= "y"@);
    assert("yin"@.skip(1) =~= "in"@);
    lemma_insert(m6, "yin"@, ("y", "in"));
    let m7 = m6.insert("yin"@, ("y", "in"));
    assert("ying"@.take(1) =~= "y"@);
    assert("ying"@.skip(1) =~= "ing"@);
    lemma_insert(m7, "ying"@, ("y", "ing"));
    let m8 = m7.insert("ying"@, ("y", "ing"));
    assert("yong"@.take(1) =~= "y"@);
    assert("yong"@.skip(1) =~= "ong"@);
    lemma_insert(m8, "yong"@, ("y", "ong"));
    let m9 = m8.insert("yong"@, ("y", "ong"));
    assert("you"@.take(1) =~= "y"@);
    assert("you"@.skip(1) =~= "ou"@);
    lemma_insert(m9, "you"@, ("y", "ou"));
    let m10 = m9.insert("you"@, ("y", "ou"));
    assert("yu"@.take(1) =~= "y"@);
    assert("v"@ =~= final_of("y"@, "yu"@.skip(1)));
    lemma_insert(m10, "yu"@, ("y", "v"));
    let m11 = m10.insert("yu"@, ("y", "v"));
    assert("yuan"@.take(1) =~= "y"@);
    assert("van"@ =~= final_of("y"@, "yuan"@.skip(1)));
    lemma_insert(m11, "yuan"@, ("y", "van"));
    let m12 = m11.insert("yuan"@, ("y", "van"));
    assert("yue"@.take(1) =~= "y"@);
    assert("ve"@ =~= final_of("y"@, "yue"@.skip(1)));
    lemma_insert(m12, "yue"@, ("y", "ve"));
    let m13 = m12.insert("yue"@, ("y", "ve"));
    assert("yun"@.take(1) =~= "y"@);
    assert("vn"@ =~= final_of("y"@, "yun"@.skip(1)));
    lemma_insert(m13, "yun"@, ("y", "vn"));
    let m14 = m13.insert("yun"@, ("y", "vn"));
}

proof fn lemma_z(m: Map<Seq<char>, (&'static str, &'static str)>)
    requires
        all_spelled(m),
    ensures
        all_spelled(syllables_z(m)),
{
    reveal_strlit("za");
    reveal_strlit("z");
    reveal_strlit("a");
    reveal_strlit("zai");
    reveal_strlit("ai");
    reveal_strlit("zan");
    reveal_strlit("an");
    reveal_strlit("zang");
    reveal_strlit("ang");
    reveal_strlit("zao");
    reveal_strlit("ao");
    reveal_strlit("ze");
    reveal_strlit("e");
    reveal_strlit("zei");
    reveal_strlit("zen");
    reveal_strlit("en");
    reveal_strlit("zeng");
    reveal_strlit("eng");
    reveal_strlit("zi");
    reveal_strlit("ir");
    reveal_strlit("zong");
    reveal_strlit("ong");
    reveal_strlit("zou");
    reveal_strlit("ou");
    reveal_strlit("zu");
    reveal_strlit("u");
    reveal_strlit("zuan");
    reveal_strlit("uan");
    reveal_strlit("zui");
    reveal_strlit("ui");
    reveal_strlit("zun");
    reveal_strlit("un");
    reveal_strlit("zuo");
    reveal_strlit("uo");
    assert("za"@.take(1) =~= "z"@);
    assert("za"@.skip(1) =~= "a"@);
    lemma_insert(m, "za"@, ("z", "a"));
    let m1 = m.insert("za"@, ("z", "a"));
    assert("zai"@.take(1) =~= "z"@);
    assert("zai"@.skip(1) =~= "ai"@);
    lemma_insert(m1, "zai"@, ("z", "ai"));
    let m2 = m1.insert("zai"@, ("z", "ai"));
    assert("zan"@.take(1) =~= "z"@);
    assert("zan"@.skip(1) =~= "an"@);
    lemma_insert(m2, "zan"@, ("z", "an"));
    let m3 = m2.insert("zan"@, ("z", "an"));
    assert("zang"@.take(1) =~= "z"@);
    assert("zang"@.skip(1) =~= "ang"@);
    lemma_insert(m3, "zang"@, ("z", "ang"));
    let m4 = m3.insert("zang"@, ("z", "ang"));
    assert("zao"@.take(1) =~= "z"@);
    assert("zao"@.skip(1) =~= "ao"@);
    lemma_insert(m4, "zao"@, ("z", "ao"));
    let m5 = m4.insert("zao"@, ("z", "ao"));
    assert("ze"@.take(1) =~= "z"@);
    assert("ze"@.skip(1) =~= "e"@);
    lemma_insert(m5, "ze"@, ("z", "e"));
    let m6 = m5.insert("ze"@, ("z", "e"));
    assert("zei"@.take(1) =~= "z"@);
    assert("e"@ =~= final_of("z"@, "zei"@.skip(1)));
    lemma_insert(m6, "zei"@, ("z", "e"));
    let m7 = m6.insert("zei"@, ("z", "e"));
    assert("zen"@.take(1) =~= "z"@);
    assert("zen"@.skip(1) =~= "en"@);
    lemma_insert(m7, "zen"@, ("z", "en"));
    let m8 = m7.insert("zen"@, ("z", "en"));
    assert("zeng"@.take(1) =~= "z"@);
    assert("zeng"@.skip(1) =~= "eng"@);
    lemma_insert(m8, "zeng"@, ("z", "eng"));
    let m9 = m8.insert("zeng"@, ("z", "eng"));
    assert("zi"@.take(1) =~= "z"@);
    assert("ir"@ =~= final_of("z"@, "zi"@.skip(1)));
    lemma_insert(m9, "zi"@, ("z", "ir"));
    let m10 = m9.insert("zi"@, ("z", "ir"));
    assert("zong"@.take(1) =~= "z"@);
    assert("zong"@.skip(1) =~= "ong"@);
    lemma_insert(m10, "zong"@, ("z", "ong"));
    let m11 = m10.insert("zong"@, ("z", "ong"));
    assert("zou"@.take(1) =~= "z"@);
    assert("zou"@.skip(1) =~= "ou"@);
    lemma_insert(m11, "zou"@, ("z", "ou"));
    let m12 = m11.insert("zou"@, ("z", "ou"));
    assert("zu"@.take(1) =~= "z"@);
    assert("zu"@.skip(1) =~= "u"@);
    lemma_insert(m12, "zu"@, ("z", "u"));
    let m13 = m12.insert("zu"@, ("z", "u"));
    assert("zuan"@.take(1) =~= "z"@);
    assert("zuan"@.skip(1) =~= "uan"@);
    lemma_insert(m13, "zuan"@, ("z", "uan"));
    let m14 = m13.insert("zuan"@, ("z", "uan"));
    assert("zui"@.take(1) =~= "z"@);
    assert("zui"@.skip(1) =~= "ui"@);
    lemma_insert(m14, "zui"@, ("z", "ui"));
    let m15 = m14.insert("zui"@, ("z", "ui"));
    assert("zun"@.take(1) =~= "z"@);
    assert("zun"@.skip(1) =~= "un"@);
    lemma_insert(m15, "zun"@, ("z", "un"));
    let m16 = m15.insert("zun"@, ("z", "un"));
    assert("zuo"@.take(1) =~= "z"@);
    assert("zuo"@.skip(1) =~= "uo"@);
    lemma_insert(m16, "zuo"@, ("z", "uo"));
    let m17 = m16.insert("zuo"@, ("z", "uo"));
}

proof fn lemma_zh(m: Map<Seq<char>, (&'static str, &'static str)>)
    requires
        all_spelled(m),
    ensures
        all_spelled(syllables_zh(m)),
{
    reveal_strlit("zha");
    reveal_strlit("zh");
    reveal_strlit("a");
    reveal_strlit("zhai");
    reveal_strlit("ai");
    reveal_strlit("zhan");
    reveal_strlit("an");
    reveal_strlit("zhang");
    reveal_strlit("ang");
    reveal_strlit("zhao");
    reveal_strlit("ao");
    reveal_strlit("zhe");
    reveal_strlit("e");
    reveal_strlit("zhei");
    reveal_strlit("zhen");
    reveal_strlit("en");
    reveal_strlit("zheng");
    reveal_strlit("eng");
    reveal_strlit("zhi");
    reveal_strlit("ir");
    reveal_strlit("zhong");
    reveal_strlit("ong");
    reveal_strlit("zhou");
    reveal_strlit("ou");
    reveal_strlit("zhu");
    reveal_strlit("u");
    reveal_strlit("zhua");
    reveal_strlit("ua");
    reveal_strlit("zhuai");
    reveal_strlit("uai");
    reveal_strlit("zhuan");
    reveal_strlit("uan");
    reveal_strlit("zhuang");
    reveal_strlit("uang");
    reveal_strlit("zhui");
    reveal_strlit("ui");
    reveal_strlit("zhun");
    reveal_strlit("un");
    reveal_strlit("zhuo");
    reveal_strlit("uo");
    assert("zha"@.take(2) =~= "zh"@);
    assert("zha"@.skip(2) =~= "a"@);
    lemma_insert(m, "zha"@, ("zh", "a"));
    let m1 = m.insert("zha"@, ("zh", "a"));
    assert("zhai"@.take(2) =~= "zh"@);
    assert("zhai"@.skip(2) =~= "ai"@);
    lemma_insert(m1, "zhai"@, ("zh", "ai"));
    let m2 = m1.insert("zhai"@, ("zh", "ai"));
    assert("zhan"@.take(2) =~= "zh"@);
    assert("zhan"@.skip(2) =~= "an"@);
    lemma_insert(m2, "zhan"@, ("zh", "an"));
    let m3 = m2.insert("zhan"@, ("zh", "an"));
    assert("zhang"@.take(2) =~= "zh"@);
    assert("zhang"@.skip(2) =~= "ang"@);
    lemma_insert(m3, "zhang"@, ("zh", "ang"));
    let m4 = m3.insert("zhang"@, ("zh", "ang"));
    assert("zhao"@.take(2) =~= "zh"@);
    assert("zhao"@.skip(2) =~= "ao"@);
    lemma_insert(m4, "zhao"@, ("zh", "ao"));
    let m5 = m4.insert("zhao"@, ("zh", "ao"));
    assert("zhe"@.take(2) =~= "zh"@);
    assert("zhe"@.skip(2) =~= "e"@);
    lemma_insert(m5, "zhe"@, ("zh", "e"));
    let m6 = m5.insert("zhe"@, ("zh", "e"));
    assert("zhei"@.take(2) =~= "zh"@);
    assert("e"@ =~= final_of("zh"@, "zhei"@.skip(2)));
    lemma_insert(m6, "zhei"@, ("zh", "e"));
    let m7 = m6.insert("zhei"@, ("zh", "e"));
    assert("zhen"@.take(2) =~= "zh"@);
    assert("zhen"@.skip(2) =~= "en"@);
    lemma_insert(m7, "zhen"@, ("zh", "en"));
    let m8 = m7.insert("zhen"@, ("zh", "en"));
    assert("zheng"@.take(2) =~= "zh"@);
    assert("zheng"@.skip(2) =~= "eng"@);
    lemma_insert(m8, "zheng"@, ("zh", "eng"));
    let m9 = m8.insert("zheng"@, ("zh", "eng"));
    assert("zhi"@.take(2) =~= "zh"@);
    assert("ir"@ =~= final_of("zh"@, "zhi"@.skip(2)));
    lemma_insert(m9, "zhi"@, ("zh", "ir"));
    let m10 = m9.insert("zhi"@, ("zh", "ir"));
    assert("zhong"@.take(2) =~= "zh"@);
    assert("zhong"@.skip(2) =~= "ong"@);
    lemma_insert(m10, "zhong"@, ("zh", "ong"));
    let m11 = m10.insert("zhong"@, ("zh", "ong"));
    assert("zhou"@.take(2) =~= "zh"@);
    assert("zhou"@.skip(2) =~= "ou"@);
    lemma_insert(m11, "zhou"@, ("zh", "ou"));
    let m12 = m11.insert("zhou"@, ("zh", "ou"));
    assert("zhu"@.take(2) =~= "zh"@);
    assert("zhu"@.skip(2) =~= "u"@);
    lemma_insert(m12, "zhu"@, ("zh", "u"));
    let m13 = m12.insert("zhu"@, ("zh", "u"));
    assert("zhua"@.take(2) =~= "zh"@);
    assert("zhua"@.skip(2) =~= "ua"@);
    lemma_insert(m13, "zhua"@, ("zh", "ua"));
    let m14 = m13.insert("zhua"@, ("zh", "ua"));
    assert("zhuai"@.take(2) =~= "zh"@);
    assert("zhuai"@.skip(2) =~= "uai"@);
    lemma_insert(m14, "zhuai"@, ("zh", "uai"));
    let m15 = m14.insert("zhuai"@, ("zh", "uai"));
    assert("zhuan"@.take(2) =~= "zh"@);
    assert("zhuan"@.skip(2) =~= "uan"@);
    lemma_insert(m15, "zhuan"@, ("zh", "uan"));
    let m16 = m15.insert("zhuan"@, ("zh", "uan"));
    assert("zhuang"@.take(2) =~= "zh"@);
    assert("zhuang"@.skip(2) =~= "uang"@);
    lemma_insert(m16, "zhuang"@, ("zh", "uang"));
    let m17 = m16.insert("zhuang"@, ("zh", "uang"));
    assert("zhui"@.take(2) =~= "zh"@);
    assert("zhui"@.skip(2) =~= "ui"@);
    lemma_insert(m17, "zhui"@, ("zh", "ui"));
    let m18 = m17.insert("zhui"@, ("zh", "ui"));
    assert("zhun"@.take(2) =~= "zh"@);
    assert("zhun"@.skip(2) =~= "un"@);
    lemma_insert(m18, "zhun"@, ("zh", "un"));
    let m19 = m18.insert("zhun"@, ("zh", "un"));
    assert("zhuo"@.take(2) =~= "zh"@);
    assert("zhuo"@.skip(2) =~= "uo"@);
    lemma_insert(m19, "zhuo"@, ("zh", "uo"));
    let m20 = m19.insert("zhuo"@, ("zh", "uo"));
}

proof fn lemma_ch(m: Map<Seq<char>, (&'static str, &'static str)>)
    requires
        all_spelled(m),
    ensures
        all_spelled(syllables_ch(m)),
{
    reveal_strlit("cha");
    reveal_strlit("ch");
    reveal_strlit("a");
    reveal_strlit("chai");
    reveal_strlit("ai");
    reveal_strlit("chan");
    reveal_strlit("an");
    reveal_strlit("chang");
    reveal_strlit("ang");
    reveal_strlit("chao");
    reveal_strlit("ao");
    reveal_strlit("che");
    reveal_strlit("e");
    reveal_strlit("chen");
    reveal_strlit("en");
    reveal_strlit("cheng");
    reveal_strlit("eng");
    reveal_strlit("chi");
    reveal_strlit("ir");
    reveal_strlit("chong");
    reveal_strlit("ong");
    reveal_strlit("chou");
    reveal_strlit("ou");
    reveal_strlit("chu");
    reveal_strlit("u");
    reveal_strlit("chua");
    reveal_strlit("ua");
    reveal_strlit("chuai");
    reveal_strlit("uai");
    reveal_strlit("chuan");
    reveal_strlit("uan");
    reveal_strlit("chuang");
    reveal_strlit("uang");
    reveal_strlit("chui");
    reveal_strlit("ui");
    reveal_strlit("chun");
    reveal_strlit("un");
    reveal_strlit("chuo");
    reveal_strlit("uo");
    assert("cha"@.take(2) =~= "ch"@);
    assert("cha"@.skip(2) =~= "a"@);
    lemma_insert(m, "cha"@, ("ch", "a"));
    let m1 = m.insert("cha"@, ("ch", "a"));
    assert("chai"@.take(2) =~= "ch"@);
    assert("chai"@.skip(2) =~= "ai"@);
    lemma_insert(m1, "chai"@, ("ch", "ai"));
    let m2 = m1.insert("chai"@, ("ch", "ai"));
    assert("chan"@.take(2) =~= "ch"@);
    assert("chan"@.skip(2) =~= "an"@);
    lemma_insert(m2, "chan"@, ("ch", "an"));
    let m3 = m2.insert("chan"@, ("ch", "an"));
    assert("chang"@.take(2) =~= "ch"@);
    assert("chang"@.skip(2) =~= "ang"@);
    lemma_insert(m3, "chang"@, ("ch", "ang"));
    let m4 = m3.insert("chang"@, ("ch", "ang"));
    assert("chao"@.take(2) =~= "ch"@);
    assert("chao"@.skip(2) =~= "ao"@);
    lemma_insert(m4, "chao"@, ("ch", "ao"));
    let m5 = m4.insert("chao"@, ("ch", "ao"));
    assert("che"@.take(2) =~= "ch"@);
    assert("che"@.skip(2) =~= "e"@);
    lemma_insert(m5, "che"@, ("ch", "e"));
    let m6 = m5.insert("che"@, ("ch", "e"));
    assert("chen"@.take(2) =~= "ch"@);
    assert("chen"@.skip(2) =~= "en"@);
    lemma_insert(m6, "chen"@, ("ch", "en"));
    let m7 = m6.insert("chen"@, ("ch", "en"));
    assert("cheng"@.take(2) =~= "ch"@);
    assert("cheng"@.skip(2) =~= "eng"@);
    lemma_insert(m7, "cheng"@, ("ch", "eng"));
    let m8 = m7.insert("cheng"@, ("ch", "eng"));
    assert("chi"@.take(2) =~= "ch"@);
    assert("ir"@ =~= final_of("ch"@, "chi"@.skip(2)));
    lemma_insert(m8, "chi"@, ("ch", "ir"));
    let m9 = m8.insert("chi"@, ("ch", "ir"));
    assert("chong"@.take(2) =~= "ch"@);
    assert("chong"@.skip(2) =~= "ong"@);
    lemma_insert(m9, "chong"@, ("ch", "ong"));
    let m10 = m9.insert("chong"@, ("ch", "ong"));
    assert("chou"@.take(2) =~= "ch"@);
    assert("chou"@.skip(2) =~= "ou"@);
    lemma_insert(m10, "chou"@, ("ch", "ou"));
    let m11 = m10.insert("chou"@, ("ch", "ou"));
    assert("chu"@.take(2) =~= "ch"@);
    assert("chu"@.skip(2) =~= "u"@);
    lemma_insert(m11, "chu"@, ("ch", "u"));
    let m12 = m11.insert("chu"@, ("ch", "u"));
    assert("chua"@.take(2) =~= "ch"@);
    assert("chua"@.skip(2) =~= "ua"@);
    lemma_insert(m12, "chua"@, ("ch", "ua"));
    let m13 = m12.insert("chua"@, ("ch", "ua"));
    assert("chuai"@.take(2) =~= "ch"@);
    assert("chuai"@.skip(2) =~= "uai"@);
    lemma_insert(m13, "chuai"@, ("ch", "uai"));
    let m14 = m13.insert("chuai"@, ("ch", "uai"));
    assert("chuan"@.take(2) =~= "ch"@);
    assert("chuan"@.skip(2) =~= "uan"@);
    lemma_insert(m14, "chuan"@, ("ch", "uan"));
    let m15 = m14.insert("chuan"@, ("ch", "uan"));
    assert("chuang"@.take(2) =~= "ch"@);
    assert("chuang"@.skip(2) =~= "uang"@);
    lemma_insert(m15, "chuang"@, ("ch", "uang"));
    let m16 = m15.insert("chuang"@, ("ch", "uang"));
    assert("chui"@.take(2) =~= "ch"@);
    assert("chui"@.skip(2) =~= "ui"@);
    lemma_insert(m16, "chui"@, ("ch", "ui"));
    let m17 = m16.insert("chui"@, ("ch", "ui"));
    assert("chun"@.take(2) =~= "ch"@);
    assert("chun"@.skip(2) =~= "un"@);
    lemma_insert(m17, "chun"@, ("ch", "un"));
    let m18 = m17.insert("chun"@, ("ch", "un"));
    assert("chuo"@.take(2) =~= "ch"@);
    assert("chuo"@.skip(2) =~= "uo"@);
    lemma_insert(m18, "chuo"@, ("ch", "uo"));
    let m19 = m18.insert("chuo"@, ("ch", "uo"));
}

proof fn lemma_sh(m: Map<Seq<char>, (&'static str, &'static str)>)
    requires
        all_spelled(m),
    ensures
        all_spelled(syllables_sh(m)),
{
    reveal_strlit("sha");
    reveal_strlit("sh");
    reveal_strlit("a");
    reveal_strlit("shai");
    reveal_strlit("ai");
    reveal_strlit("shan");
    reveal_strlit("an");
    reveal_strlit("shang");
    reveal_strlit("ang");
    reveal_strlit("shao");
    reveal_strlit("ao");
    reveal_strlit("she");
    reveal_strlit("e");
    reveal_strlit("shei");
    reveal_strlit("shen");
    reveal_strlit("en");
    reveal_strlit("sheng");
    reveal_strlit("eng");
    reveal_strlit("shi");
    reveal_strlit("ir");
    reveal_strlit("shou");
    reveal_strlit("ou");
    reveal_strlit("shu");
    reveal_strlit("u");
    reveal_strlit("shua");
    reveal_strlit("ua");
    reveal_strlit("shuai");
    reveal_strlit("uai");
    reveal_strlit("shuan");
    reveal_strlit("uan");
    reveal_strlit("shuang");
    reveal_strlit("uang");
    reveal_strlit("shui");
    reveal_strlit("ui");
    reveal_strlit("shun");
    reveal_strlit("un");
    reveal_strlit("shuo");
    reveal_strlit("uo");
    assert("sha"@.take(2) =~= "sh"@);
    assert("sha"@.skip(2) =~= "a"@);
    lemma_insert(m, "sha"@, ("sh", "a"));
    let m1 = m.insert("sha"@, ("sh", "a"));
    assert("shai"@.take(2) =~= "sh"@);
    assert("shai"@.skip(2) =~= "ai"@);
    lemma_insert(m1, "shai"@, ("sh", "ai"));
    let m2 = m1.insert("shai"@, ("sh", "ai"));
    assert("shan"@.take(2) =~= "sh"@);
    assert("shan"@.skip(2) =~= "an"@);
    lemma_insert(m2, "shan"@, ("sh", "an"));
    let m3 = m2.insert("shan"@, ("sh", "an"));
    assert("shang"@.take(2) =~= "sh"@);
    assert("shang"@.skip(2) =~= "ang"@);
    lemma_insert(m3, "shang"@, ("sh", "ang"));
    let m4 = m3.insert("shang"@, ("sh", "ang"));
    assert("shao"@.take(2) =~= "sh"@);
    assert("shao"@.skip(2) =~= "ao"@);
    lemma_insert(m4, "shao"@, ("sh", "ao"));
    let m5 = m4.insert("shao"@, ("sh", "ao"));
    assert("she"@.take(2) =~= "sh"@);
    assert("she"@.skip(2) =~= "e"@);
    lemma_insert(m5, "she"@, ("sh", "e"));
    let m6 = m5.insert("she"@, ("sh", "e"));
    assert("shei"@.take(2) =~= "sh"@);
    assert("e"@ =~= final_of("sh"@, "shei"@.skip(2)));
    lemma_insert(m6, "shei"@, ("sh", "e"));
    let m7 = m6.insert("shei"@, ("sh", "e"));
    assert("shen"@.take(2) =~= "sh"@);
    assert("shen"@.skip(2) =~= "en"@);
    lemma_insert(m7, "shen"@, ("sh", "en"));
    let m8 = m7.insert("shen"@, ("sh", "en"));
    assert("sheng"@.take(2) =~= "sh"@);
    assert("sheng"@.skip(2) =~= "eng"@);
    lemma_insert(m8, "sheng"@, ("sh", "eng"));
    let m9 = m8.insert("sheng"@, ("sh", "eng"));
    assert("shi"@.take(2) =~= "sh"@);
    assert("ir"@ =~= final_of("sh"@, "shi"@.skip(2)));
    lemma_insert(m9, "shi"@, ("sh", "ir"));
    let m10 = m9.insert("shi"@, ("sh", "ir"));
    assert("shou"@.take(2) =~= "sh"@);
    assert("shou"@.skip(2) =~= "ou"@);
    lemma_insert(m10, "shou"@, ("sh", "ou"));
    let m11 = m10.insert("shou"@, ("sh", "ou"));
    assert("shu"@.take(2) =~= "sh"@);
    assert("shu"@.skip(2) =~= "u"@);
    lemma_insert(m11, "shu"@, ("sh", "u"));
    let m12 = m11.insert("shu"@, ("sh", "u"));
    assert("shua"@.take(2) =~= "sh"@);
    assert("shua"@.skip(2) =~= "ua"@);
    lemma_insert(m12, "shua"@, ("sh", "ua"));
    let m13 = m12.insert("shua"@, ("sh", "ua"));
    assert("shuai"@.take(2) =~= "sh"@);
    assert("shuai"@.skip(2) =~= "uai"@);
    lemma_insert(m13, "shuai"@, ("sh", "uai"));
    let m14 = m13.insert("shuai"@, ("sh", "uai"));
    assert("shuan"@.take(2) =~= "sh"@);
    assert("shuan"@.skip(2) =~= "uan"@);
    lemma_insert(m14, "shuan"@, ("sh", "uan"));
    let m15 = m14.insert("shuan"@, ("sh", "uan"));
    assert("shuang"@.take(2) =~= "sh"@);
    assert("shuang"@.skip(2) =~= "uang"@);
    lemma_insert(m15, "shuang"@, ("sh", "uang"));
    let m16 = m15.insert("shuang"@, ("sh", "uang"));
    assert("shui"@.take(2) =~= "sh"@);
    assert("shui"@.skip(2) =~= "ui"@);
    lemma_insert(m16, "shui"@, ("sh", "ui"));
    let m17 = m16.insert("shui"@, ("sh", "ui"));
    assert("shun"@.take(2) =~= "sh"@);
    assert("shun"@.skip(2) =~= "un"@);
    lemma_insert(m17, "shun"@, ("sh", "un"));
    let m18 = m17.insert("shun"@, ("sh", "un"));
    assert("shuo"@.take(2) =~= "sh"@);
    assert("shuo"@.skip(2) =~= "uo"@);
    lemma_insert(m18, "shuo"@, ("sh", "uo"));
    let m19 = m18.insert("shuo"@, ("sh", "uo"));
}

/// Each syllable of the table has the initial and the final of its spelling.
pub proof fn syllables_follow_their_spelling(base: Seq<char>)
    requires
        syllables().contains_key(base),
    ensures
        is_spelled(base, syllables()[base]),
{
    let m = Map::<Seq<char>, (&'static str, &'static str)>::empty();
    assert(all_spelled(m));
    lemma_bare(m);
    let m = syllables_bare(m);
    lemma_b(m);
    let m = syllables_b(m);
    lemma_c(m);
    let m = syllables_c(m);
    lemma_d(m);
    let m = syllables_d(m);
    lemma_f(m);
    let m = syllables_f(m);
    lemma_g(m);
    let m = syllables_g(m);
    lemma_h(m);
    let m = syllables_h(m);
    lemma_j(m);
    let m = syllables_j(m);
    lemma_k(m);
    let m = syllables_k(m);
    lemma_l(m);
    let m = syllables_l(m);
    lemma_m(m);
    let m = syllables_m(m);
    lemma_n(m);
    let m = syllables_n(m);
    lemma_p(m);
    let m = syllables_p(m);
    lemma_q(m);
    let m = syllables_q(m);
    lemma_r(m);
    let m = syllables_r(m);
    lemma_s(m);
    let m = syllables_s(m);
    lemma_t(m);
    let m = syllables_t(m);
    lemma_w(m);
    let m = syllables_w(m);
    lemma_x(m);
    let m = syllables_x(m);
    lemma_y(m);
    let m = syllables_y(m);
    lemma_z(m);
    let m = syllables_z(m);
    lemma_zh(m);
    let m = syllables_zh(m);
    lemma_ch(m);
    let m = syllables_ch(m);
    lemma_sh(m);
    let m = syllables_sh(m);
    assert(m == syllables());
}

} // verus!
