//! Compact key notation for BCI geometry JSON objects:
//! `{mR:0.55,mF:0.30}` for `{"maskRadius": 0.55, "maskFeather": 0.30}`.
use vstd::prelude::*;

use crate::text::{chars_of, push_char, string_of, views};

verus! {

/// A JSON value as the compact notation sees it.
#[derive(Debug, Clone)]
pub enum CompactValue {
    /// A number, rendered with two decimals.
    Number(String),
    /// A string.
    Text(String),
    /// An array; items that are not strings are empty.
    List(Vec<String>),
    /// Any other JSON value (`null`, a boolean, an object).
    Unsupported,
}

/// A JSON document as the compact notation sees it.
#[derive(Debug, Clone)]
pub enum CompactInput {
    /// An object, with its entries in document order.
    Object(Vec<(String, CompactValue)>),
    /// Any JSON value that is not an object.
    NotObject,
}

/// Abstract value of a compact value.
pub enum ValueView {
    Number(Seq<char>),
    Text(Seq<char>),
    List(Seq<Seq<char>>),
    Unsupported,
}

impl View for CompactValue {
    type V = ValueView;

    open spec fn view(&self) -> ValueView {
        match self {
            CompactValue::Number(n) => ValueView::Number(n@),
            CompactValue::Text(s) => ValueView::Text(s@),
            CompactValue::List(items) => ValueView::List(views(items@)),
            CompactValue::Unsupported => ValueView::Unsupported,
        }
    }
}

/// The views of object entries.
pub open spec fn entry_views(v: Seq<(String, CompactValue)>) -> Seq<(Seq<char>, ValueView)> {
    v.map_values(|p: (String, CompactValue)| (p.0@, p.1@))
}

/// Two-way dictionary between field names and short keys.
#[derive(Debug, Clone)]
pub struct CompressionDict {
    field_map: Vec<(String, String)>,
    reverse_map: Vec<(String, String)>,
}

/// The field-name → short-key pairs of the standard BCI dictionary.
pub open spec fn bci_pairs() -> Seq<(Seq<char>, Seq<char>)> {
    seq![
        ("stressScore"@, "S"@), ("visualOverloadIndex"@, "V"@), ("startleSpike"@, "Sp"@), ("signalQuality"@, "Q"@),
        ("stressBand"@, "SB"@), ("attentionBand"@, "AB"@), ("maskRadius"@, "mR"@), ("maskFeather"@, "mF"@),
        ("decayGrain"@, "dG"@), ("colorDesat"@, "cD"@), ("veinOverlay"@, "vO"@), ("motionSmear"@, "mS"@),
        ("paletteHex"@, "pH"@), ("infectedChannelGain"@, "iG"@), ("squadMuffle"@, "sM"@), ("heartbeatGain"@, "hG"@),
        ("breathGain"@, "bG"@), ("ringingLevel"@, "rL"@), ("direct"@, "dL"@), ("CIC"@, "C"@), ("AOS"@, "A"@),
        ("DET"@, "D"@), ("LSG"@, "L"@), ("UEC"@, "U"@), ("EMD"@, "E"@), ("STCI"@, "T"@), ("CDL"@, "K"@), ("ARR"@, "R"@),
    ]
}

/// The pairs with each side swapped.
pub open spec fn swapped(pairs: Seq<(Seq<char>, Seq<char>)>) -> Seq<(Seq<char>, Seq<char>)> {
    pairs.map_values(|p: (Seq<char>, Seq<char>)| (p.1, p.0))
}

/// The views of a list of string pairs.
pub open spec fn pair_views(v: Seq<(String, String)>) -> Seq<(Seq<char>, Seq<char>)> {
    v.map_values(|p: (String, String)| (p.0@, p.1@))
}

/// The value of the first pair keyed `key`.
pub open spec fn pair_lookup(pairs: Seq<(Seq<char>, Seq<char>)>, key: Seq<char>) -> Option<Seq<char>>
    decreases pairs.len(),
{
    if pairs.len() == 0 {
        None
    } else if pairs[0].0 == key {
        Some(pairs[0].1)
    } else {
        pair_lookup(pairs.drop_first(), key)
    }
}

/// Lookup of `key` in a pair list.
fn lookup_pair(pairs: &Vec<(String, String)>, key: &str) -> (r: Option<String>)
    ensures
        match r {
            Some(v) => pair_lookup(pair_views(pairs@), key@) == Some(v@),
            None => pair_lookup(pair_views(pairs@), key@) is None,
        },
{
    let mut i: usize = 0;
    assert(pair_views(pairs@).skip(0) =~= pair_views(pairs@));
    while i < pairs.len()
        invariant
            i <= pairs.len(),
            pair_lookup(pair_views(pairs@), key@) == pair_lookup(pair_views(pairs@).skip(i as int), key@),
        decreases pairs.len() - i,
    {
        assert(pair_views(pairs@).skip(i as int).drop_first() =~= pair_views(pairs@).skip(i + 1));
        assert(pair_views(pairs@).skip(i as int)[0] == (pairs@[i as int].0@, pairs@[i as int].1@));
        if crate::text::str_eq(pairs[i].0.as_str(), key) {
            return Some(pairs[i].1.clone());
        }
        i = i + 1;
    }
    None
}

/// `items` joined by `sep`.
pub open spec fn join(items: Seq<Seq<char>>, sep: char) -> Seq<char>
    decreases items.len(),
{
    if items.len() == 0 {
        seq![]
    } else if items.len() == 1 {
        items[0]
    } else {
        join(items.drop_last(), sep).push(sep) + items.last()
    }
}

/// The notation of one value, `None` for unsupported values.
pub open spec fn value_text(v: ValueView) -> Option<Seq<char>> {
    match v {
        ValueView::Number(n) => Some(n),
        ValueView::Text(s) => Some(seq!['\''] + s + seq!['\'']),
        ValueView::List(items) => Some(seq!['['] + join(items, ',') + seq![']']),
        ValueView::Unsupported => None,
    }
}

/// The pair notations of the first entries, or the first error.
pub open spec fn compress_pairs(fields: Seq<(Seq<char>, Seq<char>)>, entries: Seq<(Seq<char>, ValueView)>) -> Result<Seq<Seq<char>>, Seq<char>>
    decreases entries.len(),
{
    if entries.len() == 0 {
        Ok(seq![])
    } else {
        match compress_pairs(fields, entries.drop_last()) {
            Err(e) => Err(e),
            Ok(done) => {
                let (k, v) = entries.last();
                match pair_lookup(fields, k) {
                    None => Err("Unknown field: "@ + k),
                    Some(short) => match value_text(v) {
                        None => Err("Unsupported JSON type"@),
                        Some(t) => Ok(done.push(short + seq![':'] + t)),
                    },
                }
            },
        }
    }
}

/// The compact notation of a document with dictionary `fields`.
pub open spec fn compress_spec(fields: Seq<(Seq<char>, Seq<char>)>, doc: CompactInput) -> Result<Seq<char>, Seq<char>> {
    match doc {
        CompactInput::NotObject => Err("Expected JSON object"@),
        CompactInput::Object(entries) => match compress_pairs(fields, entry_views(entries@)) {
            Err(e) => Err(e),
            Ok(pairs) => Ok(seq!['{'] + join(pairs, ',') + seq!['}']),
        },
    }
}

/// An entry that the dictionary can write: its field has a short key and its
/// value is a number, a string or a list.
pub open spec fn writable(fields: Seq<(Seq<char>, Seq<char>)>, e: (Seq<char>, ValueView)) -> bool {
    pair_lookup(fields, e.0) is Some && !(e.1 is Unsupported)
}

proof fn lemma_compress_pairs_ok_iff(fields: Seq<(Seq<char>, Seq<char>)>, es: Seq<(Seq<char>, ValueView)>)
    ensures
        compress_pairs(fields, es) is Ok <==> forall|i: int| 0 <= i < es.len() ==> writable(fields, #[trigger] es[i]),
    decreases es.len(),
{
    if es.len() > 0 {
        let init = es.drop_last();
        lemma_compress_pairs_ok_iff(fields, init);
        if forall|i: int| 0 <= i < es.len() ==> writable(fields, #[trigger] es[i]) {
            assert forall|i: int| 0 <= i < init.len() implies writable(fields, #[trigger] init[i]) by {
                assert(init[i] == es[i]);
            }
            assert(writable(fields, es[es.len() - 1]));
            assert(es.last() == es[es.len() - 1]);
        }
        if compress_pairs(fields, es) is Ok {
            assert forall|i: int| 0 <= i < es.len() implies writable(fields, #[trigger] es[i]) by {
                if i < init.len() {
                    assert(init[i] == es[i]);
                } else {
                    assert(es.last() == es[i]);
                }
            }
        }
    }
}

/// Compression succeeds exactly on objects whose every entry is writable:
/// its field is in the dictionary and its value is a number, a string or a
/// list; any other document is refused.
pub proof fn lemma_compress_ok_iff(fields: Seq<(Seq<char>, Seq<char>)>, doc: CompactInput)
    ensures
        compress_spec(fields, doc) is Ok <==> (doc matches CompactInput::Object(entries)
            && forall|i: int| 0 <= i < entries@.len() ==> writable(fields, #[trigger] entry_views(entries@)[i])),
{
    if let CompactInput::Object(entries) = doc {
        lemma_compress_pairs_ok_iff(fields, entry_views(entries@));
    }
}

/// Appends `items` joined by `sep` to `out`.
fn push_joined(out: &mut String, items: &Vec<String>, sep: char)
    ensures
        final(out)@ == old(out)@ + join(views(items@), sep),
{
    let ghost start = out@;
    let mut i: usize = 0;
    while i < items.len()
        invariant
            i <= items.len(),
            out@ == start + join(views(items@).take(i as int), sep),
        decreases items.len() - i,
    {
        proof {
            assert(views(items@).take(i + 1).drop_last() =~= views(items@).take(i as int));
        }
        if i > 0 {
            push_char(out, sep);
        }
        out.append(items[i].as_str());
        i = i + 1;
        proof {
            if i == 1 {
                assert(join(views(items@).take(1), sep) =~= items@[0]@);
            }
            assert(out@ =~= start + join(views(items@).take(i as int), sep));
        }
    }
    proof {
        assert(views(items@).take(items.len() as int) =~= views(items@));
    }
}

impl CompressionDict {
    /// The dictionary's field-name → short-key pairs.
    pub closed spec fn spec_fields(&self) -> Seq<(Seq<char>, Seq<char>)> {
        pair_views(self.field_map@)
    }

    /// The dictionary's short-key → field-name pairs.
    pub closed spec fn spec_reverse(&self) -> Seq<(Seq<char>, Seq<char>)> {
        pair_views(self.reverse_map@)
    }

    /// The standard dictionary for BCI summaries, visual and audio
    /// parameters, and invariants.
    pub fn bci_standard() -> (r: Self)
        ensures
            r.spec_fields() == bci_pairs(),
            r.spec_reverse() == swapped(bci_pairs()),
    {
        let names = [
            "stressScore", "visualOverloadIndex", "startleSpike", "signalQuality", "stressBand", "attentionBand",
            "maskRadius", "maskFeather", "decayGrain", "colorDesat", "veinOverlay", "motionSmear", "paletteHex",
            "infectedChannelGain", "squadMuffle", "heartbeatGain", "breathGain", "ringingLevel", "direct", "CIC", "AOS",
            "DET", "LSG", "UEC", "EMD", "STCI", "CDL", "ARR",
        ];
        let keys = [
            "S", "V", "Sp", "Q", "SB", "AB", "mR", "mF", "dG", "cD", "vO", "mS", "pH", "iG", "sM", "hG", "bG", "rL", "dL",
            "C", "A", "D", "L", "U", "E", "T", "K", "R",
        ];
        let mut field_map: Vec<(String, String)> = Vec::new();
        let mut reverse_map: Vec<(String, String)> = Vec::new();
        let mut i: usize = 0;
        while i < 28
            invariant
                i <= 28,
                names@.len() == 28,
                keys@.len() == 28,
                forall|k: int| 0 <= k < 28 ==> (#[trigger] names@[k])@ == bci_pairs()[k].0 && keys@[k]@ == bci_pairs()[k].1,
                pair_views(field_map@) == bci_pairs().take(i as int),
                pair_views(reverse_map@) == swapped(bci_pairs()).take(i as int),
            decreases 28 - i,
        {
            let ghost f0 = field_map@;
            let ghost r0 = reverse_map@;
            field_map.push((String::from_str(names[i]), String::from_str(keys[i])));
            reverse_map.push((String::from_str(keys[i]), String::from_str(names[i])));
            proof {
                assert(pair_views(field_map@) =~= pair_views(f0).push((names@[i as int]@, keys@[i as int]@)));
                assert(pair_views(reverse_map@) =~= pair_views(r0).push((keys@[i as int]@, names@[i as int]@)));
                assert(bci_pairs().take(i + 1) =~= bci_pairs().take(i as int).push(bci_pairs()[i as int]));
                assert(swapped(bci_pairs()).take(i + 1) =~= swapped(bci_pairs()).take(i as int).push(swapped(bci_pairs())[i as int]));
            }
            i = i + 1;
        }
        proof {
            assert(bci_pairs().take(28) =~= bci_pairs());
            assert(swapped(bci_pairs()).take(28) =~= swapped(bci_pairs()));
        }
        CompressionDict { field_map, reverse_map }
    }

    /// The compact notation of a JSON object: each entry as `short:value`
    /// (numbers as rendered, strings in single quotes, arrays as `[a,b]`),
    /// in document order, between braces. Fails on a non-object, on the first
    /// field without a short key, and on values of other JSON types.
    pub fn compress_json(&self, json: &CompactInput) -> (r: Result<String, String>)
        ensures
            match compress_spec(self.spec_fields(), *json) {
                Ok(t) => r matches Ok(s) && s@ == t,
                Err(e) => r matches Err(m) && m@ == e,
            },
    {
        let entries = match json {
            CompactInput::NotObject => return Err(String::from_str("Expected JSON object")),
            CompactInput::Object(entries) => entries,
        };
        let mut pairs: Vec<String> = Vec::new();
        let mut i: usize = 0;
        proof {
            assert(views(pairs@) =~= Seq::<Seq<char>>::empty());
            assert(entry_views(entries@).take(0) =~= Seq::<(Seq<char>, ValueView)>::empty());
        }
        while i < entries.len()
            invariant
                i <= entries.len(),
                *json == CompactInput::Object(*entries),
                compress_pairs(self.spec_fields(), entry_views(entries@).take(i as int)) == Ok::<Seq<Seq<char>>, Seq<char>>(views(pairs@)),
            decreases entries.len() - i,
        {
            proof {
                assert(entry_views(entries@).take(i + 1).drop_last() =~= entry_views(entries@).take(i as int));
            }
            let (k, v) = (&entries[i].0, &entries[i].1);
            let short = match lookup_pair(&self.field_map, k.as_str()) {
                Some(s) => s,
                None => {
                    let mut m = String::from_str("Unknown field: ");
                    m.append(k.as_str());
                    proof {
                        lemma_compress_error_sticks(self.spec_fields(), entry_views(entries@), (i + 1) as int);
                    }
                    return Err(m);
                },
            };
            let mut text = short.clone();
            push_char(&mut text, ':');
            match v {
                CompactValue::Number(n) => {
                    text.append(n.as_str());
                },
                CompactValue::Text(s) => {
                    push_char(&mut text, '\'');
                    text.append(s.as_str());
                    push_char(&mut text, '\'');
                },
                CompactValue::List(items) => {
                    push_char(&mut text, '[');
                    push_joined(&mut text, items, ',');
                    push_char(&mut text, ']');
                },
                CompactValue::Unsupported => {
                    proof {
                        lemma_compress_error_sticks(self.spec_fields(), entry_views(entries@), (i + 1) as int);
                    }
                    return Err(String::from_str("Unsupported JSON type"));
                },
            }
            let ghost before = pairs@;
            pairs.push(text);
            proof {
                assert(views(pairs@) =~= views(before).push(text@));
                assert(text@ =~= short@ + seq![':'] + value_text(v@).unwrap());
            }
            i = i + 1;
        }
        proof {
            assert(entry_views(entries@).take(entries.len() as int) =~= entry_views(entries@));
        }
        let mut out = String::new();
        push_char(&mut out, '{');
        push_joined(&mut out, &pairs, ',');
        push_char(&mut out, '}');
        proof {
            assert(out@ =~= seq!['{'] + join(views(pairs@), ',') + seq!['}']);
        }
        Ok(out)
    }
}

/// An error in the first `n` entries is the result for every longer prefix.
proof fn lemma_compress_error_sticks(fields: Seq<(Seq<char>, Seq<char>)>, entries: Seq<(Seq<char>, ValueView)>, n: int)
    requires
        0 < n <= entries.len(),
        compress_pairs(fields, entries.take(n)) is Err,
    ensures
        compress_pairs(fields, entries) == compress_pairs(fields, entries.take(n)),
    decreases entries.len() - n,
{
    if n < entries.len() {
        assert(entries.take(n + 1).drop_last() =~= entries.take(n));
        lemma_compress_error_sticks(fields, entries, n + 1);
    } else {
        assert(entries.take(n) =~= entries);
    }
}


// ---------------------------------------------------------------------
// Decompression
// ---------------------------------------------------------------------

/// `c` is whitespace as `char::is_whitespace` defines it (Unicode White_Space).
pub open spec fn is_ws(c: char) -> bool {
    ('\u{9}' <= c && c <= '\u{d}') || c == ' ' || c == '\u{85}' || c == '\u{a0}' || c == '\u{1680}'
        || ('\u{2000}' <= c && c <= '\u{200a}') || c == '\u{2028}' || c == '\u{2029}' || c == '\u{202f}'
        || c == '\u{205f}' || c == '\u{3000}'
}

fn is_whitespace_char(c: char) -> (r: bool)
    ensures
        r == is_ws(c),
{
    ('\u{9}' <= c && c <= '\u{d}') || c == ' ' || c == '\u{85}' || c == '\u{a0}' || c == '\u{1680}'
        || ('\u{2000}' <= c && c <= '\u{200a}') || c == '\u{2028}' || c == '\u{2029}' || c == '\u{202f}'
        || c == '\u{205f}' || c == '\u{3000}'
}

/// `s` without its leading `c`s (`trim_start_matches`).
pub open spec fn trim_start_char(s: Seq<char>, c: char) -> Seq<char>
    decreases s.len(),
{
    if s.len() > 0 && s[0] == c {
        trim_start_char(s.drop_first(), c)
    } else {
        s
    }
}

/// `s` without its trailing `c`s (`trim_end_matches`).
pub open spec fn trim_end_char(s: Seq<char>, c: char) -> Seq<char>
    decreases s.len(),
{
    if s.len() > 0 && s.last() == c {
        trim_end_char(s.drop_last(), c)
    } else {
        s
    }
}

/// `s` without leading whitespace.
pub open spec fn trim_ws_start(s: Seq<char>) -> Seq<char>
    decreases s.len(),
{
    if s.len() > 0 && is_ws(s[0]) {
        trim_ws_start(s.drop_first())
    } else {
        s
    }
}

/// `s` without trailing whitespace.
pub open spec fn trim_ws_end(s: Seq<char>) -> Seq<char>
    decreases s.len(),
{
    if s.len() > 0 && is_ws(s.last()) {
        trim_ws_end(s.drop_last())
    } else {
        s
    }
}

/// `s` without leading and trailing whitespace (`str::trim`).
pub open spec fn trim_ws(s: Seq<char>) -> Seq<char> {
    trim_ws_end(trim_ws_start(s))
}

/// The pieces of `s` between occurrences of `c` (`str::split`).
pub open spec fn split(s: Seq<char>, c: char) -> Seq<Seq<char>>
    decreases s.len(),
{
    if s.len() == 0 {
        seq![Seq::<char>::empty()]
    } else {
        let r = split(s.drop_last(), c);
        if s.last() == c {
            r.push(Seq::<char>::empty())
        } else {
            r.update(r.len() - 1, r.last().push(s.last()))
        }
    }
}

proof fn lemma_split_nonempty(s: Seq<char>, c: char)
    ensures
        split(s, c).len() >= 1,
    decreases s.len(),
{
    if s.len() > 0 {
        lemma_split_nonempty(s.drop_last(), c);
    }
}

/// The value of a `short:value` pair's value text.
pub open spec fn parse_value(v: Seq<char>) -> ValueView {
    if v.len() > 0 && v[0] == '\'' {
        ValueView::Text(trim_end_char(trim_start_char(v, '\''), '\''))
    } else if v.len() > 0 && v[0] == '[' {
        ValueView::List(split(trim_end_char(trim_start_char(v, '['), ']'), ',').map_values(|x: Seq<char>| trim_ws(x)))
    } else {
        ValueView::Number(v)
    }
}

/// The entry of one `short:value` pair.
pub open spec fn parse_pair(reverse: Seq<(Seq<char>, Seq<char>)>, pair: Seq<char>) -> Result<(Seq<char>, ValueView), Seq<char>> {
    let parts = split(pair, ':');
    if parts.len() != 2 {
        Err("Invalid pair: "@ + pair)
    } else {
        let short = trim_ws(parts[0]);
        match pair_lookup(reverse, short) {
            None => Err("Unknown short key: "@ + short),
            Some(long) => Ok((long, parse_value(trim_ws(parts[1])))),
        }
    }
}

/// The entries of the pairs, or the error of the first failing pair.
pub open spec fn parse_pairs(reverse: Seq<(Seq<char>, Seq<char>)>, pairs: Seq<Seq<char>>) -> Result<Seq<(Seq<char>, ValueView)>, Seq<char>>
    decreases pairs.len(),
{
    if pairs.len() == 0 {
        Ok(seq![])
    } else {
        match parse_pairs(reverse, pairs.drop_last()) {
            Err(e) => Err(e),
            Ok(done) => match parse_pair(reverse, pairs.last()) {
                Err(e) => Err(e),
                Ok(entry) => Ok(done.push(entry)),
            },
        }
    }
}

/// The entries of a compact notation, in notation order.
pub open spec fn decompress_spec(reverse: Seq<(Seq<char>, Seq<char>)>, s: Seq<char>) -> Result<Seq<(Seq<char>, ValueView)>, Seq<char>> {
    parse_pairs(reverse, split(trim_end_char(trim_start_char(s, '{'), '}'), ','))
}

/// The text from `from` to `to` (exclusive) of `s`.
fn sub_chars(s: &Vec<char>, from: usize, to: usize) -> (r: Vec<char>)
    requires
        from <= to <= s@.len(),
    ensures
        r@ == s@.subrange(from as int, to as int),
{
    let mut v: Vec<char> = Vec::new();
    let mut i: usize = from;
    while i < to
        invariant
            from <= i <= to,
            to <= s@.len(),
            v@ == s@.subrange(from as int, i as int),
        decreases to - i,
    {
        v.push(s[i]);
        i = i + 1;
        proof {
            assert(v@ =~= s@.subrange(from as int, i as int));
        }
    }
    v
}

fn trim_start_matches(s: &Vec<char>, c: char) -> (r: Vec<char>)
    ensures
        r@ == trim_start_char(s@, c),
{
    let mut i: usize = 0;
    assert(s@.subrange(0, s@.len() as int) =~= s@);
    while i < s.len() && s[i] == c
        invariant
            i <= s@.len(),
            trim_start_char(s@, c) == trim_start_char(s@.subrange(i as int, s@.len() as int), c),
        decreases s@.len() - i,
    {
        assert(s@.subrange(i as int, s@.len() as int).drop_first() =~= s@.subrange(i + 1, s@.len() as int));
        i = i + 1;
    }
    sub_chars(s, i, s.len())
}

fn trim_end_matches(s: &Vec<char>, c: char) -> (r: Vec<char>)
    ensures
        r@ == trim_end_char(s@, c),
{
    let mut j: usize = s.len();
    assert(s@.subrange(0, s@.len() as int) =~= s@);
    while j > 0 && s[j - 1] == c
        invariant
            j <= s@.len(),
            trim_end_char(s@, c) == trim_end_char(s@.subrange(0, j as int), c),
        decreases j,
    {
        assert(s@.subrange(0, j as int).drop_last() =~= s@.subrange(0, j - 1));
        j = j - 1;
    }
    sub_chars(s, 0, j)
}

fn trim_whitespace(s: &Vec<char>) -> (r: Vec<char>)
    ensures
        r@ == trim_ws(s@),
{
    let mut i: usize = 0;
    assert(s@.subrange(0, s@.len() as int) =~= s@);
    while i < s.len() && is_whitespace_char(s[i])
        invariant
            i <= s@.len(),
            trim_ws_start(s@) == trim_ws_start(s@.subrange(i as int, s@.len() as int)),
        decreases s@.len() - i,
    {
        assert(s@.subrange(i as int, s@.len() as int).drop_first() =~= s@.subrange(i + 1, s@.len() as int));
        i = i + 1;
    }
    let t = sub_chars(s, i, s.len());
    let mut j: usize = t.len();
    assert(t@.subrange(0, t@.len() as int) =~= t@);
    while j > 0 && is_whitespace_char(t[j - 1])
        invariant
            j <= t@.len(),
            trim_ws_end(t@) == trim_ws_end(t@.subrange(0, j as int)),
        decreases j,
    {
        assert(t@.subrange(0, j as int).drop_last() =~= t@.subrange(0, j - 1));
        j = j - 1;
    }
    sub_chars(&t, 0, j)
}

/// The views of a list of character vectors.
pub open spec fn char_views(v: Seq<Vec<char>>) -> Seq<Seq<char>> {
    v.map_values(|x: Vec<char>| x@)
}

fn split_chars(s: &Vec<char>, c: char) -> (r: Vec<Vec<char>>)
    ensures
        char_views(r@) == split(s@, c),
{
    let mut parts: Vec<Vec<char>> = Vec::new();
    parts.push(Vec::new());
    proof {
        assert(char_views(parts@) =~= split(s@.take(0), c));
    }
    let mut i: usize = 0;
    while i < s.len()
        invariant
            i <= s@.len(),
            char_views(parts@) == split(s@.take(i as int), c),
        decreases s@.len() - i,
    {
        proof {
            assert(s@.take(i + 1).drop_last() =~= s@.take(i as int));
            lemma_split_nonempty(s@.take(i as int), c);
        }
        let ghost before = char_views(parts@);
        if s[i] == c {
            parts.push(Vec::new());
            proof {
                assert(char_views(parts@) =~= before.push(Seq::<char>::empty()));
            }
        } else {
            let mut last = parts.pop().unwrap();
            last.push(s[i]);
            parts.push(last);
            proof {
                assert(char_views(parts@) =~= before.update(before.len() - 1, before.last().push(s@[i as int])));
            }
        }
        i = i + 1;
    }
    proof {
        assert(s@.take(s@.len() as int) =~= s@);
    }
    parts
}

fn string_of_chars(v: &Vec<char>) -> (r: String)
    ensures
        r@ == v@,
{
    string_of(v)
}

fn parse_value_chars(v: &Vec<char>) -> (r: CompactValue)
    ensures
        r@ == parse_value(v@),
{
    if v.len() > 0 && v[0] == '\'' {
        let a = trim_start_matches(v, '\'');
        let b = trim_end_matches(&a, '\'');
        CompactValue::Text(string_of_chars(&b))
    } else if v.len() > 0 && v[0] == '[' {
        let a = trim_start_matches(v, '[');
        let b = trim_end_matches(&a, ']');
        let pieces = split_chars(&b, ',');
        let mut items: Vec<String> = Vec::new();
        let mut k: usize = 0;
        while k < pieces.len()
            invariant
                k <= pieces@.len(),
                views(items@) == char_views(pieces@).take(k as int).map_values(|x: Seq<char>| trim_ws(x)),
            decreases pieces@.len() - k,
        {
            let t = trim_whitespace(&pieces[k]);
            let ghost before = items@;
            let ts = string_of_chars(&t);
            items.push(ts);
            proof {
                let f = |x: Seq<char>| trim_ws(x);
                let cv = char_views(pieces@);
                assert(cv[k as int] == pieces@[k as int]@);
                assert(views(items@) =~= views(before).push(ts@));
                assert(cv.take(k + 1) =~= cv.take(k as int).push(cv[k as int]));
                assert(cv.take(k + 1).map_values(f) =~= cv.take(k as int).map_values(f).push(f(cv[k as int])));
            }
            k = k + 1;
        }
        proof {
            assert(char_views(pieces@).take(pieces@.len() as int) =~= char_views(pieces@));
        }
        CompactValue::List(items)
    } else {
        CompactValue::Number(string_of_chars(v))
    }
}

impl CompressionDict {
    fn parse_one(&self, pair: &Vec<char>) -> (r: Result<(String, CompactValue), String>)
        ensures
            match parse_pair(self.spec_reverse(), pair@) {
                Ok(e) => r matches Ok(x) && x.0@ == e.0 && x.1@ == e.1,
                Err(e) => r matches Err(m) && m@ == e,
            },
    {
        let parts = split_chars(pair, ':');
        if parts.len() != 2 {
            let mut m = String::from_str("Invalid pair: ");
            let p = string_of_chars(pair);
            m.append(p.as_str());
            return Err(m);
        }
        let short_chars = trim_whitespace(&parts[0]);
        let short = string_of_chars(&short_chars);
        let long = match lookup_pair(&self.reverse_map, short.as_str()) {
            Some(l) => l,
            None => {
                let mut m = String::from_str("Unknown short key: ");
                m.append(short.as_str());
                return Err(m);
            },
        };
        let value_chars = trim_whitespace(&parts[1]);
        Ok((long, parse_value_chars(&value_chars)))
    }

    /// Parse a compact notation back into object entries, in notation order:
    /// the surrounding braces are dropped, the text is split at every `,`
    /// and each piece must be one `short:value` pair with a known short key.
    /// Quoted values are strings, bracketed values are arrays, anything else
    /// is a number's text.
    pub fn decompress_to_json(&self, compressed: &str) -> (r: Result<Vec<(String, CompactValue)>, String>)
        ensures
            match decompress_spec(self.spec_reverse(), compressed@) {
                Ok(es) => r matches Ok(v) && entry_views(v@) == es,
                Err(e) => r matches Err(m) && m@ == e,
            },
    {
        let s = chars_of(compressed);
        let a = trim_start_matches(&s, '{');
        let b = trim_end_matches(&a, '}');
        let pairs = split_chars(&b, ',');
        let mut out: Vec<(String, CompactValue)> = Vec::new();
        let mut i: usize = 0;
        proof {
            assert(entry_views(out@) =~= Seq::<(Seq<char>, ValueView)>::empty());
            assert(char_views(pairs@).take(0) =~= Seq::<Seq<char>>::empty());
        }
        while i < pairs.len()
            invariant
                i <= pairs@.len(),
                char_views(pairs@) == split(b@, ','),
                b@ == trim_end_char(trim_start_char(compressed@, '{'), '}'),
                parse_pairs(self.spec_reverse(), char_views(pairs@).take(i as int)) == Ok::<Seq<(Seq<char>, ValueView)>, Seq<char>>(entry_views(out@)),
            decreases pairs@.len() - i,
        {
            proof {
                assert(char_views(pairs@).take(i + 1).drop_last() =~= char_views(pairs@).take(i as int));
            }
            match self.parse_one(&pairs[i]) {
                Ok(entry) => {
                    let ghost before = out@;
                    out.push(entry);
                    proof {
                        assert(entry_views(out@) =~= entry_views(before).push((entry.0@, entry.1@)));
                    }
                },
                Err(m) => {
                    proof {
                        lemma_parse_error_sticks(self.spec_reverse(), char_views(pairs@), (i + 1) as int);
                    }
                    return Err(m);
                },
            }
            i = i + 1;
        }
        proof {
            assert(char_views(pairs@).take(pairs@.len() as int) =~= char_views(pairs@));
        }
        Ok(out)
    }
}

proof fn lemma_parse_error_sticks(reverse: Seq<(Seq<char>, Seq<char>)>, pairs: Seq<Seq<char>>, n: int)
    requires
        0 < n <= pairs.len(),
        parse_pairs(reverse, pairs.take(n)) is Err,
    ensures
        parse_pairs(reverse, pairs) == parse_pairs(reverse, pairs.take(n)),
    decreases pairs.len() - n,
{
    if n < pairs.len() {
        assert(pairs.take(n + 1).drop_last() =~= pairs.take(n));
        lemma_parse_error_sticks(reverse, pairs, n + 1);
    } else {
        assert(pairs.take(n) =~= pairs);
    }
}
// ---------------------------------------------------------------------
// Round trip
// ---------------------------------------------------------------------

/// A character that the notation never treats as structure: no whitespace,
/// separator, quote, brace or bracket.
pub open spec fn plain_char(c: char) -> bool {
    !is_ws(c) && c != ',' && c != ':' && c != '\'' && c != '{' && c != '}' && c != '[' && c != ']'
}

/// A text made of plain characters only.
pub open spec fn plain(t: Seq<char>) -> bool {
    forall|i: int| 0 <= i < t.len() ==> plain_char(#[trigger] t[i])
}

/// A number or a string whose text is plain.
pub open spec fn plain_value(v: ValueView) -> bool {
    match v {
        ValueView::Number(t) => plain(t),
        ValueView::Text(t) => plain(t),
        _ => false,
    }
}

/// The dictionary maps the entry's field to a plain short key that maps
/// back to the field, and the entry's value is plain.
pub open spec fn entry_roundtrips(fields: Seq<(Seq<char>, Seq<char>)>, reverse: Seq<(Seq<char>, Seq<char>)>, e: (Seq<char>, ValueView)) -> bool {
    match pair_lookup(fields, e.0) {
        Some(short) => plain(short) && pair_lookup(reverse, short) == Some(e.0) && plain_value(e.1),
        None => false,
    }
}

/// The `short:value` text of an entry.
pub open spec fn pair_text(fields: Seq<(Seq<char>, Seq<char>)>, e: (Seq<char>, ValueView)) -> Seq<char> {
    pair_lookup(fields, e.0).unwrap() + seq![':'] + value_text(e.1).unwrap()
}

/// The pair texts of entries.
pub open spec fn pair_texts(fields: Seq<(Seq<char>, Seq<char>)>, es: Seq<(Seq<char>, ValueView)>) -> Seq<Seq<char>> {
    es.map_values(|e: (Seq<char>, ValueView)| pair_text(fields, e))
}

proof fn lemma_split_single(y: Seq<char>, c: char)
    requires
        forall|i: int| 0 <= i < y.len() ==> y[i] != c,
    ensures
        split(y, c) == seq![y],
    decreases y.len(),
{
    if y.len() > 0 {
        let q = y.drop_last();
        assert forall|i: int| 0 <= i < q.len() implies q[i] != c by {
            assert(q[i] == y[i]);
        }
        lemma_split_single(q, c);
        assert(y[y.len() - 1] != c);
        assert(q.push(y.last()) =~= y);
        assert(seq![q].update(0, q.push(y.last())) =~= seq![y]);
        assert(split(y, c) == seq![q].update(0, q.push(y.last())));
    } else {
        assert(y =~= Seq::<char>::empty());
    }
}

proof fn lemma_split_append(x: Seq<char>, y: Seq<char>, c: char)
    requires
        forall|i: int| 0 <= i < y.len() ==> y[i] != c,
    ensures
        split(x.push(c) + y, c) == split(x, c).push(y),
    decreases y.len(),
{
    if y.len() == 0 {
        assert(y =~= Seq::<char>::empty());
        assert(x.push(c) + y =~= x.push(c));
        assert(x.push(c).drop_last() =~= x);
        assert(split(x.push(c), c) == split(x, c).push(Seq::<char>::empty()));
    } else {
        let q = y.drop_last();
        assert forall|i: int| 0 <= i < q.len() implies q[i] != c by {
            assert(q[i] == y[i]);
        }
        lemma_split_append(x, q, c);
        let z = x.push(c) + y;
        assert(z.drop_last() =~= x.push(c) + q);
        assert(z.last() == y.last());
        assert(y[y.len() - 1] != c);
        assert(q.push(y.last()) =~= y);
        let r = split(x, c).push(q);
        assert(r.last() == q);
        assert(r.update(r.len() - 1, r.last().push(y.last())) =~= split(x, c).push(y));
        assert(split(z, c) == r.update(r.len() - 1, r.last().push(y.last())));
    }
}

proof fn lemma_split_join(ps: Seq<Seq<char>>, c: char)
    requires
        ps.len() > 0,
        forall|k: int, i: int| 0 <= k < ps.len() && 0 <= i < ps[k].len() ==> ps[k][i] != c,
    ensures
        split(join(ps, c), c) == ps,
    decreases ps.len(),
{
    if ps.len() == 1 {
        lemma_split_single(ps[0], c);
        assert(seq![ps[0]] =~= ps);
    } else {
        let q = ps.drop_last();
        assert forall|k: int, i: int| 0 <= k < q.len() && 0 <= i < q[k].len() implies q[k][i] != c by {
            assert(q[k] == ps[k]);
        }
        lemma_split_join(q, c);
        let y = ps.last();
        assert forall|i: int| 0 <= i < y.len() implies y[i] != c by {
            assert(y == ps[ps.len() - 1]);
        }
        lemma_split_append(join(q, c), y, c);
        assert(q.push(y) =~= ps);
    }
}

proof fn lemma_join_ends(ps: Seq<Seq<char>>, c: char)
    requires
        ps.len() > 0,
        forall|k: int| 0 <= k < ps.len() ==> (#[trigger] ps[k]).len() > 0,
    ensures
        join(ps, c).len() > 0,
        join(ps, c)[0] == ps[0][0],
        join(ps, c).last() == ps.last().last(),
    decreases ps.len(),
{
    if ps.len() > 1 {
        let q = ps.drop_last();
        assert forall|k: int| 0 <= k < q.len() implies (#[trigger] q[k]).len() > 0 by {
            assert(q[k] == ps[k]);
        }
        lemma_join_ends(q, c);
        assert(ps.last() == ps[ps.len() - 1]);
    }
}

proof fn lemma_trim_ws_plain(s: Seq<char>)
    requires
        s.len() == 0 || (!is_ws(s[0]) && !is_ws(s.last())),
    ensures
        trim_ws(s) == s,
{
}

proof fn lemma_parse_pair_roundtrip(reverse: Seq<(Seq<char>, Seq<char>)>, short: Seq<char>, k: Seq<char>, v: ValueView)
    requires
        plain(short),
        pair_lookup(reverse, short) == Some(k),
        plain_value(v),
    ensures
        parse_pair(reverse, short + seq![':'] + value_text(v).unwrap()) == Ok::<(Seq<char>, ValueView), Seq<char>>((k, v)),
{
    let vt = value_text(v).unwrap();
    let p = short + seq![':'] + vt;
    assert(p =~= short.push(':') + vt);
    let t = match v {
        ValueView::Number(t) => t,
        ValueView::Text(t) => t,
        _ => Seq::empty(),
    };
    assert forall|i: int| 0 <= i < vt.len() implies vt[i] != ':' by {
        match v {
            ValueView::Number(t) => {
                assert(plain_char(t[i]));
            },
            ValueView::Text(t) => {
                if 0 < i < vt.len() - 1 {
                    assert(vt[i] == t[i - 1]);
                    assert(plain_char(t[i - 1]));
                }
            },
            _ => {},
        }
    }
    assert forall|i: int| 0 <= i < short.len() implies short[i] != ':' by {
        assert(plain_char(short[i]));
    }
    lemma_split_single(short, ':');
    lemma_split_append(short, vt, ':');
    assert(split(p, ':') =~= seq![short, vt]);
    if short.len() > 0 {
        assert(plain_char(short[0]));
        assert(plain_char(short[short.len() - 1]));
    }
    lemma_trim_ws_plain(short);
    match v {
        ValueView::Number(t) => {
            if t.len() > 0 {
                assert(plain_char(t[0]));
                assert(plain_char(t[t.len() - 1]));
            }
            lemma_trim_ws_plain(vt);
            assert(parse_value(vt) == ValueView::Number(t));
        },
        ValueView::Text(t) => {
            lemma_trim_ws_plain(vt);
            assert(vt[0] == '\'');
            assert(vt.drop_first() =~= t + seq!['\'']);
            if t.len() > 0 {
                assert(plain_char(t[0]));
                assert((t + seq!['\''])[0] == t[0]);
                reveal_with_fuel(trim_start_char, 2);
                assert(trim_start_char(vt, '\'') == t + seq!['\'']);
                assert((t + seq!['\'']).drop_last() =~= t);
                assert(plain_char(t[t.len() - 1]));
                reveal_with_fuel(trim_end_char, 2);
                assert(trim_end_char(t + seq!['\''], '\'') == t);
            } else {
                reveal_with_fuel(trim_start_char, 3);
                assert(vt =~= seq!['\'', '\'']);
                assert(vt.drop_first().drop_first() =~= Seq::<char>::empty());
                assert(trim_start_char(vt, '\'') =~= Seq::<char>::empty());
                assert(t =~= Seq::<char>::empty());
            }
            assert(parse_value(vt) == ValueView::Text(t));
        },
        _ => {},
    }
}

proof fn lemma_compress_pairs_ok(fields: Seq<(Seq<char>, Seq<char>)>, reverse: Seq<(Seq<char>, Seq<char>)>, es: Seq<(Seq<char>, ValueView)>)
    requires
        forall|i: int| 0 <= i < es.len() ==> entry_roundtrips(fields, reverse, #[trigger] es[i]),
    ensures
        compress_pairs(fields, es) == Ok::<Seq<Seq<char>>, Seq<char>>(pair_texts(fields, es)),
    decreases es.len(),
{
    if es.len() > 0 {
        let q = es.drop_last();
        assert forall|i: int| 0 <= i < q.len() implies entry_roundtrips(fields, reverse, #[trigger] q[i]) by {
            assert(q[i] == es[i]);
        }
        lemma_compress_pairs_ok(fields, reverse, q);
        assert(entry_roundtrips(fields, reverse, es[es.len() - 1]));
        assert(pair_texts(fields, q).push(pair_text(fields, es.last())) =~= pair_texts(fields, es));
    } else {
        assert(pair_texts(fields, es) =~= Seq::<Seq<char>>::empty());
    }
}

proof fn lemma_parse_pairs_ok(fields: Seq<(Seq<char>, Seq<char>)>, reverse: Seq<(Seq<char>, Seq<char>)>, es: Seq<(Seq<char>, ValueView)>)
    requires
        forall|i: int| 0 <= i < es.len() ==> entry_roundtrips(fields, reverse, #[trigger] es[i]),
    ensures
        parse_pairs(reverse, pair_texts(fields, es)) == Ok::<Seq<(Seq<char>, ValueView)>, Seq<char>>(es),
    decreases es.len(),
{
    if es.len() > 0 {
        let q = es.drop_last();
        assert forall|i: int| 0 <= i < q.len() implies entry_roundtrips(fields, reverse, #[trigger] q[i]) by {
            assert(q[i] == es[i]);
        }
        lemma_parse_pairs_ok(fields, reverse, q);
        let e = es.last();
        assert(entry_roundtrips(fields, reverse, es[es.len() - 1]));
        let short = pair_lookup(fields, e.0).unwrap();
        lemma_parse_pair_roundtrip(reverse, short, e.0, e.1);
        let pt = pair_texts(fields, es);
        assert(pt.len() == es.len());
        assert(pt.drop_last() =~= pair_texts(fields, q));
        assert(pt.last() == pair_text(fields, e));
        assert(pt.last() == short + seq![':'] + value_text(e.1).unwrap());
        assert(parse_pair(reverse, pt.last()) == Ok::<(Seq<char>, ValueView), Seq<char>>((e.0, e.1)));
        assert(parse_pairs(reverse, pt.drop_last()) == Ok::<Seq<(Seq<char>, ValueView)>, Seq<char>>(q));
        assert(parse_pairs(reverse, pt) == Ok::<Seq<(Seq<char>, ValueView)>, Seq<char>>(q.push((e.0, e.1))));
        assert(q.push(e) =~= es);
    } else {
        assert(pair_texts(fields, es) =~= Seq::<Seq<char>>::empty());
        assert(es =~= Seq::<(Seq<char>, ValueView)>::empty());
    }
}

/// The names of `pairs` are pairwise distinct, and so are their short keys.
pub open spec fn distinct_pairs(pairs: Seq<(Seq<char>, Seq<char>)>) -> bool {
    &&& forall|i: int, j: int| 0 <= i < j < pairs.len() ==> (#[trigger] pairs[i]).0 != (#[trigger] pairs[j]).0
    &&& forall|i: int, j: int| 0 <= i < j < pairs.len() ==> (#[trigger] pairs[i]).1 != (#[trigger] pairs[j]).1
}

/// In a dictionary with distinct names and distinct short keys, each name
/// maps to its short key and each short key back to its name.
proof fn lemma_distinct_lookup(pairs: Seq<(Seq<char>, Seq<char>)>, k: int)
    requires
        distinct_pairs(pairs),
        0 <= k < pairs.len(),
    ensures
        pair_lookup(pairs, pairs[k].0) == Some(pairs[k].1),
        pair_lookup(swapped(pairs), pairs[k].1) == Some(pairs[k].0),
    decreases k,
{
    let sw = swapped(pairs);
    assert(sw[0] == (pairs[0].1, pairs[0].0));
    if k > 0 {
        let rest = pairs.drop_first();
        assert forall|i: int, j: int| 0 <= i < j < rest.len() implies (#[trigger] rest[i]).0 != (#[trigger] rest[j]).0 by {
            assert(rest[i] == pairs[i + 1] && rest[j] == pairs[j + 1]);
        }
        assert forall|i: int, j: int| 0 <= i < j < rest.len() implies (#[trigger] rest[i]).1 != (#[trigger] rest[j]).1 by {
            assert(rest[i] == pairs[i + 1] && rest[j] == pairs[j + 1]);
        }
        lemma_distinct_lookup(rest, k - 1);
        assert(rest[k - 1] == pairs[k]);
        assert(pairs[0].0 != pairs[k].0);
        assert(pairs[0].1 != pairs[k].1);
        assert(swapped(rest) =~= sw.drop_first());
    }
}

/// The standard BCI dictionary is a bijection: its names are pairwise
/// distinct, and so are its short keys, which are plain.
pub proof fn lemma_bci_pairs_distinct()
    ensures
        distinct_pairs(bci_pairs()),
        forall|k: int| 0 <= k < bci_pairs().len() ==> plain(#[trigger] bci_pairs()[k].1),
{
    reveal_strlit("stressScore");
    reveal_strlit("S");
    reveal_strlit("visualOverloadIndex");
    reveal_strlit("V");
    reveal_strlit("startleSpike");
    reveal_strlit("Sp");
    reveal_strlit("signalQuality");
    reveal_strlit("Q");
    reveal_strlit("stressBand");
    reveal_strlit("SB");
    reveal_strlit("attentionBand");
    reveal_strlit("AB");
    reveal_strlit("maskRadius");
    reveal_strlit("mR");
    reveal_strlit("maskFeather");
    reveal_strlit("mF");
    reveal_strlit("decayGrain");
    reveal_strlit("dG");
    reveal_strlit("colorDesat");
    reveal_strlit("cD");
    reveal_strlit("veinOverlay");
    reveal_strlit("vO");
    reveal_strlit("motionSmear");
    reveal_strlit("mS");
    reveal_strlit("paletteHex");
    reveal_strlit("pH");
    reveal_strlit("infectedChannelGain");
    reveal_strlit("iG");
    reveal_strlit("squadMuffle");
    reveal_strlit("sM");
    reveal_strlit("heartbeatGain");
    reveal_strlit("hG");
    reveal_strlit("breathGain");
    reveal_strlit("bG");
    reveal_strlit("ringingLevel");
    reveal_strlit("rL");
    reveal_strlit("direct");
    reveal_strlit("dL");
    reveal_strlit("CIC");
    reveal_strlit("C");
    reveal_strlit("AOS");
    reveal_strlit("A");
    reveal_strlit("DET");
    reveal_strlit("D");
    reveal_strlit("LSG");
    reveal_strlit("L");
    reveal_strlit("UEC");
    reveal_strlit("U");
    reveal_strlit("EMD");
    reveal_strlit("E");
    reveal_strlit("STCI");
    reveal_strlit("T");
    reveal_strlit("CDL");
    reveal_strlit("K");
    reveal_strlit("ARR");
    reveal_strlit("R");
    let p = bci_pairs();
    assert(p.len() == 28);
    assert forall|i: int, j: int| 0 <= i < j < p.len() implies (#[trigger] p[i]).0 != (#[trigger] p[j]).0 by {
        assert(p[i].0.len() != p[j].0.len() || p[i].0[0] != p[j].0[0] || p[i].0[1] != p[j].0[1] || p[i].0[2] != p[j].0[2]
            || p[i].0[p[i].0.len() - 1] != p[j].0[p[j].0.len() - 1]);
    }
    assert forall|i: int, j: int| 0 <= i < j < p.len() implies (#[trigger] p[i]).1 != (#[trigger] p[j]).1 by {
        assert(p[i].1.len() != p[j].1.len() || p[i].1[0] != p[j].1[0] || p[i].1[p[i].1.len() - 1] != p[j].1[p[j].1.len() - 1]);
    }
    assert forall|k: int| 0 <= k < p.len() implies plain(#[trigger] p[k].1) by {
        assert forall|i: int| 0 <= i < p[k].1.len() implies plain_char(#[trigger] p[k].1[i]) by {}
    }
}

/// The standard dictionary maps each field of the original BCI table to its
/// short key and each short key back to its field: `stressScore`→`S`,
/// `visualOverloadIndex`→`V`, `startleSpike`→`Sp`, `signalQuality`→`Q`,
/// `stressBand`→`SB`, `attentionBand`→`AB`, `maskRadius`→`mR`,
/// `maskFeather`→`mF`, `decayGrain`→`dG`, `colorDesat`→`cD`,
/// `veinOverlay`→`vO`, `motionSmear`→`mS`, `paletteHex`→`pH`,
/// `infectedChannelGain`→`iG`, `squadMuffle`→`sM`, `heartbeatGain`→`hG`,
/// `breathGain`→`bG`, `ringingLevel`→`rL`, `direct`→`dL`, and the invariant
/// codes `CIC`→`C`, `AOS`→`A`, `DET`→`D`, `LSG`→`L`, `UEC`→`U`, `EMD`→`E`,
/// `STCI`→`T`, `CDL`→`K`, `ARR`→`R`.
pub proof fn lemma_bci_table(k: int)
    requires
        0 <= k < 28,
    ensures
        ({
            let table: Seq<(Seq<char>, Seq<char>)> = seq![
                ("stressScore"@, "S"@), ("visualOverloadIndex"@, "V"@), ("startleSpike"@, "Sp"@), ("signalQuality"@, "Q"@),
                ("stressBand"@, "SB"@), ("attentionBand"@, "AB"@), ("maskRadius"@, "mR"@), ("maskFeather"@, "mF"@),
                ("decayGrain"@, "dG"@), ("colorDesat"@, "cD"@), ("veinOverlay"@, "vO"@), ("motionSmear"@, "mS"@),
                ("paletteHex"@, "pH"@), ("infectedChannelGain"@, "iG"@), ("squadMuffle"@, "sM"@), ("heartbeatGain"@, "hG"@),
                ("breathGain"@, "bG"@), ("ringingLevel"@, "rL"@), ("direct"@, "dL"@), ("CIC"@, "C"@), ("AOS"@, "A"@),
                ("DET"@, "D"@), ("LSG"@, "L"@), ("UEC"@, "U"@), ("EMD"@, "E"@), ("STCI"@, "T"@), ("CDL"@, "K"@), ("ARR"@, "R"@),
            ];
            &&& pair_lookup(bci_pairs(), table[k].0) == Some(table[k].1)
            &&& pair_lookup(swapped(bci_pairs()), table[k].1) == Some(table[k].0)
        }),
{
    lemma_bci_pairs_distinct();
    lemma_distinct_lookup(bci_pairs(), k);
}

proof fn lemma_pair_lookup_found(pairs: Seq<(Seq<char>, Seq<char>)>, key: Seq<char>)
    ensures
        pair_lookup(pairs, key) is Some ==> exists|i: int| 0 <= i < pairs.len() && (#[trigger] pairs[i]).0 == key,
    decreases pairs.len(),
{
    if pairs.len() > 0 && pairs[0].0 != key {
        lemma_pair_lookup_found(pairs.drop_first(), key);
        if pair_lookup(pairs, key) is Some {
            let i = choose|i: int| 0 <= i < pairs.drop_first().len() && (#[trigger] pairs.drop_first()[i]).0 == key;
            assert(pairs[i + 1] == pairs.drop_first()[i]);
        }
    } else if pairs.len() > 0 {
        assert(pairs[0].0 == key);
    }
}

/// The standard dictionary knows no field and no short key beyond the
/// original table.
pub proof fn lemma_bci_table_complete(name: Seq<char>, short: Seq<char>)
    ensures
        ({
            let table: Seq<(Seq<char>, Seq<char>)> = seq![
                ("stressScore"@, "S"@), ("visualOverloadIndex"@, "V"@), ("startleSpike"@, "Sp"@), ("signalQuality"@, "Q"@),
                ("stressBand"@, "SB"@), ("attentionBand"@, "AB"@), ("maskRadius"@, "mR"@), ("maskFeather"@, "mF"@),
                ("decayGrain"@, "dG"@), ("colorDesat"@, "cD"@), ("veinOverlay"@, "vO"@), ("motionSmear"@, "mS"@),
                ("paletteHex"@, "pH"@), ("infectedChannelGain"@, "iG"@), ("squadMuffle"@, "sM"@), ("heartbeatGain"@, "hG"@),
                ("breathGain"@, "bG"@), ("ringingLevel"@, "rL"@), ("direct"@, "dL"@), ("CIC"@, "C"@), ("AOS"@, "A"@),
                ("DET"@, "D"@), ("LSG"@, "L"@), ("UEC"@, "U"@), ("EMD"@, "E"@), ("STCI"@, "T"@), ("CDL"@, "K"@), ("ARR"@, "R"@),
            ];
            &&& pair_lookup(bci_pairs(), name) is Some ==> exists|k: int| 0 <= k < 28 && (#[trigger] table[k]).0 == name
            &&& pair_lookup(swapped(bci_pairs()), short) is Some ==> exists|k: int| 0 <= k < 28 && (#[trigger] table[k]).1 == short
        }),
{
    lemma_pair_lookup_found(bci_pairs(), name);
    lemma_pair_lookup_found(swapped(bci_pairs()), short);
    let sw = swapped(bci_pairs());
    if pair_lookup(sw, short) is Some {
        let i = choose|i: int| 0 <= i < sw.len() && (#[trigger] sw[i]).0 == short;
        assert(sw[i].0 == bci_pairs()[i].1);
    }
}

/// Compressing a one-field object with the standard dictionary writes the
/// field's short key from the original table and the value's notation: for
/// every field of the table and every number, `{short:number}`.
pub proof fn lemma_bci_single_field(k: int, number: Seq<char>)
    requires
        0 <= k < 28,
    ensures
        ({
            let table: Seq<(Seq<char>, Seq<char>)> = seq![
                ("stressScore"@, "S"@), ("visualOverloadIndex"@, "V"@), ("startleSpike"@, "Sp"@), ("signalQuality"@, "Q"@),
                ("stressBand"@, "SB"@), ("attentionBand"@, "AB"@), ("maskRadius"@, "mR"@), ("maskFeather"@, "mF"@),
                ("decayGrain"@, "dG"@), ("colorDesat"@, "cD"@), ("veinOverlay"@, "vO"@), ("motionSmear"@, "mS"@),
                ("paletteHex"@, "pH"@), ("infectedChannelGain"@, "iG"@), ("squadMuffle"@, "sM"@), ("heartbeatGain"@, "hG"@),
                ("breathGain"@, "bG"@), ("ringingLevel"@, "rL"@), ("direct"@, "dL"@), ("CIC"@, "C"@), ("AOS"@, "A"@),
                ("DET"@, "D"@), ("LSG"@, "L"@), ("UEC"@, "U"@), ("EMD"@, "E"@), ("STCI"@, "T"@), ("CDL"@, "K"@), ("ARR"@, "R"@),
            ];
            compress_pairs(bci_pairs(), seq![(table[k].0, ValueView::Number(number))])
                == Ok::<Seq<Seq<char>>, Seq<char>>(seq![table[k].1 + seq![':'] + number])
        }),
{
    lemma_bci_table(k);
    let table: Seq<(Seq<char>, Seq<char>)> = seq![
        ("stressScore"@, "S"@), ("visualOverloadIndex"@, "V"@), ("startleSpike"@, "Sp"@), ("signalQuality"@, "Q"@),
        ("stressBand"@, "SB"@), ("attentionBand"@, "AB"@), ("maskRadius"@, "mR"@), ("maskFeather"@, "mF"@),
        ("decayGrain"@, "dG"@), ("colorDesat"@, "cD"@), ("veinOverlay"@, "vO"@), ("motionSmear"@, "mS"@),
        ("paletteHex"@, "pH"@), ("infectedChannelGain"@, "iG"@), ("squadMuffle"@, "sM"@), ("heartbeatGain"@, "hG"@),
        ("breathGain"@, "bG"@), ("ringingLevel"@, "rL"@), ("direct"@, "dL"@), ("CIC"@, "C"@), ("AOS"@, "A"@),
        ("DET"@, "D"@), ("LSG"@, "L"@), ("UEC"@, "U"@), ("EMD"@, "E"@), ("STCI"@, "T"@), ("CDL"@, "K"@), ("ARR"@, "R"@),
    ];
    let es = seq![(table[k].0, ValueView::Number(number))];
    assert(es.drop_last() =~= Seq::<(Seq<char>, ValueView)>::empty());
    assert(compress_pairs(bci_pairs(), es.drop_last()) == Ok::<Seq<Seq<char>>, Seq<char>>(seq![]));
    assert(seq![].push(table[k].1 + seq![':'] + number) =~= seq![table[k].1 + seq![':'] + number]);
}

/// The standard dictionary round trip: every field of the standard BCI
/// dictionary maps to a plain short key that maps back to it, so a
/// non-empty object over these fields with plain values compresses and
/// decompresses back to the same entries (see `lemma_compress_roundtrip`).
pub proof fn lemma_bci_fields_roundtrip(field: Seq<char>, value: ValueView)
    requires
        exists|k: int| 0 <= k < bci_pairs().len() && (#[trigger] bci_pairs()[k]).0 == field,
        plain_value(value),
    ensures
        entry_roundtrips(bci_pairs(), swapped(bci_pairs()), (field, value)),
{
    lemma_bci_pairs_distinct();
    let k = choose|k: int| 0 <= k < bci_pairs().len() && (#[trigger] bci_pairs()[k]).0 == field;
    lemma_distinct_lookup(bci_pairs(), k);
}

/// Round trip: compressing a non-empty object whose fields the dictionary
/// maps to plain short keys and back, and whose values are numbers or
/// strings of plain text, succeeds, and decompressing the result gives back
/// the same entries in the same order.
pub proof fn lemma_compress_roundtrip(d: CompressionDict, entries: Vec<(String, CompactValue)>)
    requires
        entries@.len() > 0,
        forall|i: int| 0 <= i < entries@.len()
            ==> entry_roundtrips(d.spec_fields(), d.spec_reverse(), #[trigger] entry_views(entries@)[i]),
    ensures
        compress_spec(d.spec_fields(), CompactInput::Object(entries)) matches Ok(text)
            && decompress_spec(d.spec_reverse(), text) == Ok::<Seq<(Seq<char>, ValueView)>, Seq<char>>(entry_views(entries@)),
{
    let fields = d.spec_fields();
    let reverse = d.spec_reverse();
    let es = entry_views(entries@);
    lemma_compress_pairs_ok(fields, reverse, es);
    let ps = pair_texts(fields, es);
    let j = join(ps, ',');
    let text = seq!['{'] + j + seq!['}'];
    assert forall|k: int| 0 <= k < ps.len() implies (#[trigger] ps[k]).len() > 0 by {
        assert(ps[k] == pair_text(fields, es[k]));
    }
    assert forall|k: int, i: int| 0 <= k < ps.len() && 0 <= i < ps[k].len() implies ps[k][i] != ',' by {
        let e = es[k];
        assert(entry_roundtrips(fields, reverse, es[k]));
        let short = pair_lookup(fields, e.0).unwrap();
        let vt = value_text(e.1).unwrap();
        assert(ps[k] == short + seq![':'] + vt);
        if i < short.len() {
            assert(ps[k][i] == short[i]);
            assert(plain_char(short[i]));
        } else if i > short.len() {
            assert(ps[k][i] == vt[i - short.len() - 1]);
            match e.1 {
                ValueView::Number(t) => {
                    assert(plain_char(t[i - short.len() - 1]));
                },
                ValueView::Text(t) => {
                    let m = i - short.len() - 1;
                    if 0 < m < vt.len() - 1 {
                        assert(vt[m] == t[m - 1]);
                        assert(plain_char(t[m - 1]));
                    }
                },
                _ => {},
            }
        }
    }
    lemma_join_ends(ps, ',');
    lemma_split_join(ps, ',');
    // the text starts and ends with plain characters, so trimming the braces
    // gives back the joined pairs
    let e0 = es[0];
    assert(entry_roundtrips(fields, reverse, es[0]));
    let s0 = pair_lookup(fields, e0.0).unwrap();
    assert(ps[0] == s0 + seq![':'] + value_text(e0.1).unwrap());
    if s0.len() > 0 {
        assert(plain_char(s0[0]));
        assert(ps[0][0] == s0[0]);
    } else {
        assert(ps[0][0] == ':');
    }
    let el = es[es.len() - 1];
    assert(entry_roundtrips(fields, reverse, es[es.len() - 1]));
    let sl = pair_lookup(fields, el.0).unwrap();
    let vl = value_text(el.1).unwrap();
    assert(ps.last() == sl + seq![':'] + vl);
    match el.1 {
        ValueView::Number(t) => {
            if t.len() > 0 {
                assert(plain_char(t[t.len() - 1]));
                assert(ps.last().last() == t[t.len() - 1]);
            } else {
                assert(ps.last().last() == ':');
            }
        },
        ValueView::Text(t) => {
            assert(ps.last().last() == '\'');
        },
        _ => {},
    }
    assert(text.drop_first() =~= j + seq!['}']);
    assert((j + seq!['}'])[0] == j[0]);
    reveal_with_fuel(trim_start_char, 2);
    reveal_with_fuel(trim_end_char, 2);
    assert(trim_start_char(text, '{') == j + seq!['}']);
    assert((j + seq!['}']).drop_last() =~= j);
    assert(trim_end_char(j + seq!['}'], '}') == j);
    lemma_parse_pairs_ok(fields, reverse, es);
}

/// The round trip for the standard dictionary: a non-empty object whose
/// fields are fields of the standard BCI dictionary and whose values are
/// plain numbers or strings compresses, and decompresses back to the same
/// entries in the same order.
pub proof fn lemma_bci_standard_roundtrip(d: CompressionDict, entries: Vec<(String, CompactValue)>)
    requires
        d.spec_fields() == bci_pairs(),
        d.spec_reverse() == swapped(bci_pairs()),
        entries@.len() > 0,
        forall|i: int| 0 <= i < entries@.len() ==> exists|k: int| 0 <= k < bci_pairs().len()
            && (#[trigger] bci_pairs()[k]).0 == (#[trigger] entry_views(entries@)[i]).0,
        forall|i: int| 0 <= i < entries@.len() ==> plain_value(#[trigger] entry_views(entries@)[i].1),
    ensures
        compress_spec(d.spec_fields(), CompactInput::Object(entries)) matches Ok(text)
            && decompress_spec(d.spec_reverse(), text) == Ok::<Seq<(Seq<char>, ValueView)>, Seq<char>>(entry_views(entries@)),
{
    assert forall|i: int| 0 <= i < entries@.len()
        implies entry_roundtrips(d.spec_fields(), d.spec_reverse(), #[trigger] entry_views(entries@)[i]) by {
        let e = entry_views(entries@)[i];
        lemma_bci_fields_roundtrip(e.0, e.1);
    }
    lemma_compress_roundtrip(d, entries);
}
} // verus!
