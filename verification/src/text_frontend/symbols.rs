//! The table of phoneme symbols.

use crate::strings::{chars_of, concat, join, matches_at, occurs_at, views};
use crate::Error;
use vstd::hash_map::StringHashMap;
use vstd::prelude::*;

verus! {

/// The strings of a JSON array of strings, as `serde_json::from_str` reads it; nothing where
/// the text is no such array.
pub uninterp spec fn json_strings(json: Seq<char>) -> Option<Seq<Seq<char>>>;

/// `serde_json::from_str` reads a JSON array of strings.
#[verifier::external_body]
pub(crate) fn parse_json_strings(json: &str) -> (r: Option<Vec<String>>)
    ensures
        match r {
            Some(v) => json_strings(json@) == Some(views(v@)),
            None => json_strings(json@) is None,
        },
{
    serde_json::from_str(json).ok()
}

/// The identifier of a symbol: its last position in the table.
pub open spec fn id_in(symbols: Seq<Seq<char>>, symbol: Seq<char>) -> Option<usize>
    decreases symbols.len(),
{
    if symbols.len() == 0 {
        None
    } else if symbols.last() == symbol {
        Some((symbols.len() - 1) as usize)
    } else {
        id_in(symbols.drop_last(), symbol)
    }
}

/// The longest symbol that a text starts with.
pub open spec fn longest_symbol(symbols: Seq<Seq<char>>, text: Seq<char>) -> Option<Seq<char>>
    decreases symbols.len(),
{
    if symbols.len() == 0 {
        None
    } else {
        let best = longest_symbol(symbols.drop_last(), text);
        let last = symbols.last();
        if occurs_at(text, last, 0) && (best is None || last.len() > best->0.len()) {
            Some(last)
        } else {
            best
        }
    }
}

/// The longest symbol is one of the table, starts the text, and no symbol that starts the
/// text is longer.
pub proof fn lemma_longest(symbols: Seq<Seq<char>>, text: Seq<char>)
    ensures
        match longest_symbol(symbols, text) {
            Some(best) => {
                &&& symbols.contains(best)
                &&& occurs_at(text, best, 0)
                &&& forall|i: int|
                    0 <= i < symbols.len() && occurs_at(text, #[trigger] symbols[i], 0)
                        ==> symbols[i].len() <= best.len()
            },
            None => forall|i: int|
                0 <= i < symbols.len() ==> !occurs_at(text, #[trigger] symbols[i], 0),
        },
    decreases symbols.len(),
{
    if symbols.len() > 0 {
        let rest = symbols.drop_last();
        lemma_longest(rest, text);
        assert(symbols.last() == symbols[symbols.len() - 1]);
        assert forall|i: int| 0 <= i < rest.len() implies rest[i] == symbols[i] by {}
        match longest_symbol(rest, text) {
            Some(best) => {
                let k = choose|k: int| 0 <= k < rest.len() && rest[k] == best;
                assert(symbols[k] == best);
            },
            None => {},
        }
        assert forall|i: int|
            0 <= i < symbols.len() && occurs_at(text, #[trigger] symbols[i], 0) implies {
            longest_symbol(symbols, text) is Some && symbols[i].len() <= longest_symbol(
                symbols,
                text,
            )->0.len()
        } by {
            if i < rest.len() {
                assert(rest[i] == symbols[i]);
            }
        }
    }
}

/// The identifiers of a phoneme text: spaces are passed over, at each other place the longest
/// symbol is taken, and characters that start no symbol are passed over too.
pub open spec fn encoded(symbols: Seq<Seq<char>>, text: Seq<char>) -> Seq<usize>
    decreases text.len(),
{
    if text.len() == 0 {
        Seq::empty()
    } else if text[0] == ' ' {
        encoded(symbols, text.skip(1))
    } else {
        match longest_symbol(symbols, text) {
            Some(best) => if 0 < best.len() <= text.len() {
                seq![id_in(symbols, best)->0] + encoded(symbols, text.skip(best.len() as int))
            } else {
                Seq::empty()
            },
            None => encoded(symbols, text.skip(1)),
        }
    }
}

/// The symbols of the identifiers that the table knows, one after the other.
pub open spec fn decoded(symbols: Seq<Seq<char>>, ids: Seq<usize>) -> Seq<char>
    decreases ids.len(),
{
    if ids.len() == 0 {
        Seq::empty()
    } else {
        let before = decoded(symbols, ids.drop_last());
        if ids.last() < symbols.len() {
            before + symbols[ids.last() as int]
        } else {
            before
        }
    }
}

/// Whether no symbol is empty.
pub open spec fn no_empty_symbol(symbols: Seq<Seq<char>>) -> bool {
    forall|i: int| 0 <= i < symbols.len() ==> (#[trigger] symbols[i]).len() > 0
}

/// An identifier is a position of its symbol.
pub proof fn lemma_id(symbols: Seq<Seq<char>>, symbol: Seq<char>)
    requires
        symbols.len() <= usize::MAX,
    ensures
        match id_in(symbols, symbol) {
            Some(id) => id < symbols.len() && symbols[id as int] == symbol,
            None => !symbols.contains(symbol),
        },
    decreases symbols.len(),
{
    if symbols.len() > 0 && symbols.last() != symbol {
        lemma_id(symbols.drop_last(), symbol);
        if id_in(symbols.drop_last(), symbol) is None && symbols.contains(symbol) {
            let k = choose|k: int| 0 <= k < symbols.len() && symbols[k] == symbol;
            assert(symbols.drop_last()[k] == symbol);
        }
    }
}

/// Symbol table for phoneme encoding and decoding.
pub struct SymbolTable {
    symbol_to_id: StringHashMap<usize>,
    id_to_symbol: Vec<String>,
}

impl SymbolTable {
    #[verifier::type_invariant]
    spec fn numbers_its_symbols(self) -> bool {
        &&& no_empty_symbol(views(self.id_to_symbol@))
        &&& forall|s: Seq<char>|
            #![trigger self.symbol_to_id@.contains_key(s)]
            #![trigger id_in(views(self.id_to_symbol@), s)]
            match id_in(views(self.id_to_symbol@), s) {
                Some(id) => self.symbol_to_id@.contains_key(s) && self.symbol_to_id@[s] == id,
                None => !self.symbol_to_id@.contains_key(s),
            }
    }

    /// The symbols, by identifier.
    pub closed spec fn symbols(&self) -> Seq<Seq<char>> {
        views(self.id_to_symbol@)
    }

    /// A table of the given symbols, numbered in order; an empty symbol has no place in one.
    pub fn from_symbols(symbols: Vec<String>) -> (r: Option<Self>)
        ensures
            match r {
                Some(t) => no_empty_symbol(views(symbols@)) && t.symbols() == views(symbols@),
                None => !no_empty_symbol(views(symbols@)),
            },
    {
        let ghost all = views(symbols@);
        let mut ids = StringHashMap::<usize>::new();
        for i in 0..symbols.len()
            invariant
                all == views(symbols@),
                no_empty_symbol(all.take(i as int)),
                forall|s: Seq<char>|
                    #![trigger ids@.contains_key(s)]
                    #![trigger id_in(all.take(i as int), s)]
                    match id_in(all.take(i as int), s) {
                        Some(id) => ids@.contains_key(s) && ids@[s] == id,
                        None => !ids@.contains_key(s),
                    },
        {
            assert(all[i as int] == symbols@[i as int]@);
            if symbols[i].as_str().is_empty() {
                assert(all[i as int].len() == 0);
                return None;
            }
            proof {
                assert(all.take(i + 1).drop_last() =~= all.take(i as int));
                assert(all.take(i + 1).last() == all[i as int]);
                assert forall|k: int| 0 <= k < i + 1 implies (#[trigger] all.take(i + 1)[k]).len()
                    > 0 by {
                    if k < i {
                        assert(all.take(i as int)[k].len() > 0);
                    }
                }
            }
            let ghost before = ids@;
            ids.insert(symbols[i].clone(), i);
            proof {
                assert forall|s: Seq<char>| #![trigger ids@.contains_key(s)] #![trigger id_in(all.take(i + 1), s)]
                    match id_in(all.take(i + 1), s) {
                        Some(id) => ids@.contains_key(s) && ids@[s] == id,
                        None => !ids@.contains_key(s),
                    } by {
                    assert(before.contains_key(s) || !before.contains_key(s));
                    let old_id = id_in(all.take(i as int), s);
                }
            }
        }
        assert(all.take(all.len() as int) =~= all);
        Some(Self { symbol_to_id: ids, id_to_symbol: symbols })
    }

    /// A table of the symbols of a JSON array.
    pub fn new(json: &str) -> (r: Result<Self, Error>)
        ensures
            match r {
                Ok(t) => json_strings(json@) == Some(t.symbols()) && no_empty_symbol(t.symbols()),
                Err(e) => {
                    &&& e matches Error::ConfigError(m)
                    &&& m@ == "symbols are not a JSON array of non-empty strings"@
                    &&& (json_strings(json@) matches Some(s) ==> !no_empty_symbol(s))
                },
            },
    {
        let table = match parse_json_strings(json) {
            Some(symbols) => Self::from_symbols(symbols),
            None => None,
        };
        match table {
            Some(t) => Ok(t),
            None => Err(
                Error::ConfigError(
                    "symbols are not a JSON array of non-empty strings".to_owned(),
                ),
            ),
        }
    }

    /// The position of the longest symbol that stands in `chars` at `pos`.
    fn longest_at(&self, chars: &Vec<char>, pos: usize) -> (r: Option<usize>)
        requires
            pos <= chars@.len(),
        ensures
            match r {
                Some(k) => k < self.symbols().len() && longest_symbol(
                    self.symbols(),
                    chars@.skip(pos as int),
                ) == Some(self.symbols()[k as int]),
                None => longest_symbol(self.symbols(), chars@.skip(pos as int)) is None,
            },
    {
        let ghost all = views(self.id_to_symbol@);
        let ghost rest = chars@.skip(pos as int);
        let mut best: Option<usize> = None;
        let mut best_len: usize = 0;
        for k in 0..self.id_to_symbol.len()
            invariant
                pos <= chars@.len(),
                all == views(self.id_to_symbol@),
                rest == chars@.skip(pos as int),
                match best {
                    Some(b) => {
                        &&& b < k
                        &&& longest_symbol(all.take(k as int), rest) == Some(all[b as int])
                        &&& best_len == all[b as int].len()
                    },
                    None => longest_symbol(all.take(k as int), rest) is None,
                },
        {
            let symbol = chars_of(self.id_to_symbol[k].as_str());
            proof {
                assert(all.take(k + 1).drop_last() =~= all.take(k as int));
                assert(all.take(k + 1).last() == all[k as int]);
                assert(symbol@ == all[k as int]);
            }
            let here = matches_at(chars.as_slice(), symbol.as_slice(), pos);
            proof {
                if pos + symbol@.len() <= chars@.len() {
                    assert(rest.subrange(0, symbol@.len() as int) =~= chars@.subrange(
                        pos as int,
                        pos + symbol@.len(),
                    ));
                }
                assert(here == occurs_at(rest, symbol@, 0));
            }
            if here && (best.is_none() || symbol.len() > best_len) {
                best = Some(k);
                best_len = symbol.len();
            }
        }
        assert(all.take(all.len() as int) =~= all);
        best
    }

    /// Encodes space-separated phonemes to identifiers, the longest symbol first.
    pub fn encode(&self, phonemes: &str) -> (r: Result<Vec<usize>, Error>)
        ensures
            r matches Ok(ids) && ids@ == encoded(self.symbols(), phonemes@),
    {
        proof {
            use_type_invariant(self);
        }
        let ghost all = self.symbols();
        let chars = chars_of(phonemes);
        let mut ids: Vec<usize> = Vec::new();
        let mut pos: usize = 0;
        let total: usize = self.id_to_symbol.len();
        assert(chars@.skip(0) =~= chars@);
        assert(ids@ + encoded(all, chars@) =~= encoded(all, chars@));
        while pos < chars.len()
            invariant
                pos <= chars@.len(),
                chars@ == phonemes@,
                total == all.len(),
                all == self.symbols(),
                all == views(self.id_to_symbol@),
                self.numbers_its_symbols(),
                ids@ + encoded(all, chars@.skip(pos as int)) == encoded(all, phonemes@),
            decreases chars@.len() - pos,
        {
            let ghost rest = chars@.skip(pos as int);
            if chars[pos] == ' ' {
                assert(rest.skip(1) =~= chars@.skip(pos + 1));
                pos = pos + 1;
                continue;
            }
            match self.longest_at(&chars, pos) {
                Some(k) => {
                    let symbol = self.id_to_symbol[k].as_str();
                    let ghost best = symbol@;
                    proof {
                        assert(best == all[k as int]);
                        lemma_longest(all, rest);
                        lemma_id(all, best);
                        assert(all.contains(best));
                    }
                    if let Some(id) = self.symbol_to_id.get(symbol) {
                        let len: usize = chars_of(symbol).len();
                        let ghost before = ids@;
                        ids.push(*id);
                        pos = pos + len;
                        proof {
                            assert(rest.skip(len as int) =~= chars@.skip(pos as int));
                            assert(before + (seq![*id] + encoded(all, chars@.skip(pos as int)))
                                =~= ids@ + encoded(all, chars@.skip(pos as int)));
                        }
                    } else {
                        assert(false);
                        pos = pos + 1;
                    }
                },
                None => {
                    assert(rest.skip(1) =~= chars@.skip(pos + 1));
                    pos = pos + 1;
                },
            }
        }
        assert(ids@ + Seq::<usize>::empty() =~= ids@);
        Ok(ids)
    }

    /// Decodes identifiers to a phoneme text.
    pub fn decode(&self, ids: &[usize]) -> (r: Result<String, Error>)
        ensures
            r matches Ok(s) && s@ == decoded(self.symbols(), ids@),
    {
        let mut s = String::new();
        for i in 0..ids.len()
            invariant
                s@ == decoded(self.symbols(), ids@.take(i as int)),
        {
            assert(ids@.take(i + 1).drop_last() =~= ids@.take(i as int));
            if ids[i] < self.id_to_symbol.len() {
                s.push_str(self.id_to_symbol[ids[i]].as_str());
            }
        }
        assert(ids@.take(ids@.len() as int) =~= ids@);
        Ok(s)
    }

    /// The number of symbols.
    pub fn len(&self) -> (r: usize)
        ensures
            r == self.symbols().len(),
    {
        self.id_to_symbol.len()
    }

    /// Whether the table holds no symbol.
    pub fn is_empty(&self) -> (r: bool)
        ensures
            r == (self.symbols().len() == 0),
    {
        self.id_to_symbol.len() == 0
    }

    /// The symbol of an identifier.
    pub fn get_symbol(&self, id: usize) -> (r: Option<&str>)
        ensures
            match r {
                Some(s) => id < self.symbols().len() && s@ == self.symbols()[id as int],
                None => id >= self.symbols().len(),
            },
    {
        if id < self.id_to_symbol.len() {
            Some(self.id_to_symbol[id].as_str())
        } else {
            None
        }
    }

    /// The identifier of a symbol.
    pub fn get_id(&self, symbol: &str) -> (r: Option<usize>)
        ensures
            r == id_in(self.symbols(), symbol@),
    {
        proof {
            use_type_invariant(self);
        }
        assert(id_in(views(self.id_to_symbol@), symbol@) == id_in(self.symbols(), symbol@));
        match self.symbol_to_id.get(symbol) {
            Some(id) => Some(*id),
            None => None,
        }
    }
}

/// What a symbol is numbered with is that symbol's number: looking up the identifier of a
/// symbol of the table and then the symbol of that identifier gives the symbol back.
pub proof fn symbol_of_id(symbols: Seq<Seq<char>>, symbol: Seq<char>)
    requires
        symbols.len() <= usize::MAX,
        symbols.contains(symbol),
    ensures
        id_in(symbols, symbol) matches Some(id) && id < symbols.len() && symbols[id as int]
            == symbol,
{
    lemma_id(symbols, symbol);
}

/// Joining starts with the first part.
proof fn lemma_join_first(parts: Seq<Seq<char>>, sep: Seq<char>)
    requires
        parts.len() >= 2,
    ensures
        join(parts, sep) == parts[0] + (sep + join(parts.skip(1), sep)),
    decreases parts.len(),
{
    let rest = parts.skip(1);
    let short = parts.drop_last();
    if parts.len() == 2 {
        assert(join(short, sep) == parts[0]);
        assert(join(rest, sep) == parts[1]);
        assert(parts[0] + sep + parts[1] =~= parts[0] + (sep + parts[1]));
    } else {
        lemma_join_first(short, sep);
        assert(short.skip(1) =~= rest.drop_last());
        assert(join(rest, sep) == join(rest.drop_last(), sep) + sep + rest.last());
        let middle = join(rest.drop_last(), sep);
        assert((parts[0] + (sep + middle)) + sep + parts.last() =~= parts[0] + (sep + (middle + sep
            + parts.last())));
    }
}

/// Whether no symbol holds a space.
pub open spec fn no_space_in_symbols(symbols: Seq<Seq<char>>) -> bool {
    forall|i: int, k: int|
        0 <= i < symbols.len() && 0 <= k < symbols[i].len() ==> #[trigger] symbols[i][k] != ' '
}

/// A phoneme followed by a space, or by nothing, is encoded as itself.
proof fn lemma_first_phoneme(symbols: Seq<Seq<char>>, phone: Seq<char>, rest: Seq<char>)
    requires
        no_empty_symbol(symbols),
        no_space_in_symbols(symbols),
        symbols.contains(phone),
        rest.len() == 0 || rest[0] == ' ',
    ensures
        encoded(symbols, phone + rest) == seq![id_in(symbols, phone)->0] + encoded(symbols, rest),
{
    let text = phone + rest;
    lemma_longest(symbols, text);
    let k = choose|k: int| 0 <= k < symbols.len() && symbols[k] == phone;
    assert(symbols[k].len() > 0);
    assert(symbols[k][0] != ' ');
    assert(text.subrange(0, phone.len() as int) =~= phone);
    assert(occurs_at(text, symbols[k], 0));
    let best = longest_symbol(symbols, text)->0;
    assert(best.len() >= phone.len());
    let b = choose|b: int| 0 <= b < symbols.len() && symbols[b] == best;
    if best.len() > phone.len() {
        assert(text[phone.len() as int] == ' ');
        assert(text.subrange(0, best.len() as int)[phone.len() as int] == ' ');
        assert(symbols[b][phone.len() as int] == ' ');
        assert(false);
    }
    assert(best =~= phone) by {
        assert(text.subrange(0, best.len() as int) == best);
    }
    assert(text.skip(phone.len() as int) =~= rest);
}

/// Space-separated phonemes that are all symbols are encoded one by one: there is one
/// identifier for each phoneme, and it is that phoneme's.
pub proof fn encoding_reads_each_phoneme(symbols: Seq<Seq<char>>, phones: Seq<Seq<char>>)
    requires
        no_empty_symbol(symbols),
        no_space_in_symbols(symbols),
        forall|i: int| 0 <= i < phones.len() ==> symbols.contains(#[trigger] phones[i]),
    ensures
        encoded(symbols, join(phones, " "@)) == Seq::new(
            phones.len(),
            |i: int| id_in(symbols, phones[i])->0,
        ),
    decreases phones.len(),
{
    reveal_strlit(" ");
    let ids = Seq::new(phones.len(), |i: int| id_in(symbols, phones[i])->0);
    if phones.len() == 0 {
        assert(ids =~= Seq::empty());
    } else if phones.len() == 1 {
        lemma_first_phoneme(symbols, phones[0], Seq::empty());
        assert(phones[0] + Seq::empty() =~= phones[0]);
        assert(ids =~= seq![id_in(symbols, phones[0])->0]);
        assert(encoded(symbols, Seq::empty()) =~= Seq::empty());
    } else {
        let rest = phones.skip(1);
        lemma_join_first(phones, " "@);
        let tail = " "@ + join(rest, " "@);
        assert(symbols.contains(phones[0]));
        lemma_first_phoneme(symbols, phones[0], tail);
        assert(tail.skip(1) =~= join(rest, " "@));
        assert forall|i: int| 0 <= i < rest.len() implies symbols.contains(#[trigger] rest[i]) by {
            assert(symbols.contains(phones[i + 1]));
        }
        encoding_reads_each_phoneme(symbols, rest);
        assert(ids =~= seq![ids[0]] + Seq::new(
            rest.len(),
            |i: int| id_in(symbols, rest[i])->0,
        ));
    }
}

/// Identifiers are decoded one after the other, each to the symbol at its place in the table;
/// one beyond the table to nothing.
pub proof fn identifiers_are_decoded_in_order(
    symbols: Seq<Seq<char>>,
    a: Seq<usize>,
    b: Seq<usize>,
    id: usize,
)
    ensures
        decoded(symbols, a + b) == decoded(symbols, a) + decoded(symbols, b),
        decoded(symbols, seq![id]) == if id < symbols.len() {
            symbols[id as int]
        } else {
            Seq::empty()
        },
    decreases b.len(),
{
    assert(seq![id].drop_last().len() == 0);
    assert(decoded(symbols, seq![id].drop_last()) =~= Seq::empty());
    assert(decoded(symbols, seq![id]) =~= if id < symbols.len() {
        symbols[id as int]
    } else {
        Seq::empty()
    });
    if b.len() == 0 {
        assert(a + b =~= a);
        assert(decoded(symbols, a) + decoded(symbols, b) =~= decoded(symbols, a));
    } else {
        identifiers_are_decoded_in_order(symbols, a, b.drop_last(), id);
        assert((a + b).drop_last() =~= a + b.drop_last());
        assert((a + b).last() == b.last());
        assert(decoded(symbols, a + b) =~= decoded(symbols, a) + decoded(symbols, b));
    }
}

/// A symbol that the table holds more than once has the identifier of its last place.
pub proof fn the_last_place_of_a_symbol_counts(
    symbols: Seq<Seq<char>>,
    symbol: Seq<char>,
    i: int,
)
    requires
        symbols.len() <= usize::MAX,
        0 <= i < symbols.len(),
        symbols[i] == symbol,
    ensures
        id_in(symbols, symbol) matches Some(id) && i <= id < symbols.len() && symbols[id as int]
            == symbol,
    decreases symbols.len(),
{
    if symbols.last() != symbol {
        the_last_place_of_a_symbol_counts(symbols.drop_last(), symbol, i);
    }
}

/// Phonemes of the table with spaces between them are read back from their identifiers.
pub proof fn decoding_reads_back(symbols: Seq<Seq<char>>, phones: Seq<Seq<char>>)
    requires
        symbols.len() <= usize::MAX,
        no_empty_symbol(symbols),
        no_space_in_symbols(symbols),
        forall|i: int| 0 <= i < phones.len() ==> symbols.contains(#[trigger] phones[i]),
    ensures
        decoded(symbols, encoded(symbols, join(phones, " "@))) == concat(phones),
{
    encoding_reads_each_phoneme(symbols, phones);
    lemma_decoded_phones(symbols, phones);
}

proof fn lemma_decoded_phones(symbols: Seq<Seq<char>>, phones: Seq<Seq<char>>)
    requires
        symbols.len() <= usize::MAX,
        forall|i: int| 0 <= i < phones.len() ==> symbols.contains(#[trigger] phones[i]),
    ensures
        decoded(symbols, Seq::new(phones.len(), |i: int| id_in(symbols, phones[i])->0)) == concat(
            phones,
        ),
    decreases phones.len(),
{
    let ids = Seq::new(phones.len(), |i: int| id_in(symbols, phones[i])->0);
    if phones.len() > 0 {
        let before = phones.drop_last();
        assert forall|i: int| 0 <= i < before.len() implies symbols.contains(
            #[trigger] before[i],
        ) by {
            assert(symbols.contains(phones[i]));
        }
        lemma_decoded_phones(symbols, before);
        assert(ids.drop_last() =~= Seq::new(before.len(), |i: int| id_in(symbols, before[i])->0));
        assert(symbols.contains(phones.last()));
        symbol_of_id(symbols, phones.last());
        assert(ids.last() == id_in(symbols, phones.last())->0);
    }
}

/// A space at the start of a phoneme text changes nothing, and neither does a character that
/// begins no symbol.
pub proof fn unknown_characters_are_passed_over(
    symbols: Seq<Seq<char>>,
    c: char,
    text: Seq<char>,
)
    requires
        c == ' ' || forall|i: int|
            0 <= i < symbols.len() ==> (#[trigger] symbols[i]).len() > 0 && symbols[i][0] != c,
    ensures
        encoded(symbols, seq![c] + text) == encoded(symbols, text),
{
    let s = seq![c] + text;
    assert(s.skip(1) =~= text);
    if c != ' ' {
        lemma_longest(symbols, s);
        if longest_symbol(symbols, s) is Some {
            let best = longest_symbol(symbols, s)->0;
            let i = symbols.index_of(best);
            assert(symbols[i].len() > 0);
            assert(s.subrange(0, best.len() as int) == best);
            assert(s.subrange(0, best.len() as int)[0] == s[0]);
            assert(false);
        }
    }
}

/// The first identifier of a text that begins with a symbol stands for a symbol that the text
/// begins with, no other such symbol is longer, and what follows it is read as a text of its own.
pub proof fn the_longest_symbol_is_read(symbols: Seq<Seq<char>>, text: Seq<char>, i: int)
    requires
        symbols.len() <= usize::MAX,
        no_empty_symbol(symbols),
        text.len() > 0,
        text[0] != ' ',
        0 <= i < symbols.len(),
        occurs_at(text, symbols[i], 0),
    ensures
        encoded(symbols, text).len() > 0,
        encoded(symbols, text)[0] < symbols.len(),
        occurs_at(text, symbols[encoded(symbols, text)[0] as int], 0),
        symbols[i].len() <= symbols[encoded(symbols, text)[0] as int].len(),
        encoded(symbols, text).skip(1) == encoded(
            symbols,
            text.skip(symbols[encoded(symbols, text)[0] as int].len() as int),
        ),
{
    lemma_longest(symbols, text);
    let best = longest_symbol(symbols, text)->0;
    let j = symbols.index_of(best);
    assert(symbols[j].len() > 0);
    symbol_of_id(symbols, best);
    let rest = encoded(symbols, text.skip(best.len() as int));
    assert((seq![id_in(symbols, best)->0] + rest).skip(1) =~= rest);
}

} // verus!
