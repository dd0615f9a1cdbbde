//! Compact notation for visual parameters: `vp:{mR:..,mF:..,dG:..,cD:..,vO:..,mS:..}`.
use vstd::prelude::*;

use crate::text::{chars_of, string_of};

verus! {

/// Visual parameters, each rendered with two decimals.
#[derive(Debug, Clone)]
pub struct VisualParams {
    pub mask_radius: String,
    pub mask_feather: String,
    pub decay_grain: String,
    pub color_desat: String,
    pub vein_overlay: String,
    pub motion_smear: String,
}

/// The six rendered values, in notation order.
pub type VisualView = (Seq<char>, Seq<char>, Seq<char>, Seq<char>, Seq<char>, Seq<char>);

impl View for VisualParams {
    type V = VisualView;

    open spec fn view(&self) -> VisualView {
        (self.mask_radius@, self.mask_feather@, self.decay_grain@, self.color_desat@, self.vein_overlay@, self.motion_smear@)
    }
}

/// Maps schema field names to their short keys.
#[derive(Debug, Clone)]
pub struct SchemaCompressor {
    field_map: Vec<(String, String)>,
}

/// The field-name → short-key pairs of the compressor.
pub open spec fn compressor_pairs() -> Seq<(Seq<char>, Seq<char>)> {
    seq![
        ("maskRadius"@, "mR"@), ("maskFeather"@, "mF"@), ("decayGrain"@, "dG"@), ("colorDesat"@, "cD"@),
        ("veinOverlay"@, "vO"@), ("motionSmear"@, "mS"@), ("infectedChannelGain"@, "iG"@), ("squadMuffle"@, "sM"@),
        ("heartbeatGain"@, "hG"@), ("breathGain"@, "bG"@), ("ringingLevel"@, "rL"@), ("direct"@, "dL"@),
        ("stressScore"@, "S"@), ("visualOverloadIndex"@, "V"@), ("startleSpike"@, "Sp"@), ("signalQuality"@, "Q"@),
        ("stressBand"@, "SB"@), ("attentionBand"@, "AB"@),
    ]
}

/// The views of a list of string pairs.
pub open spec fn pair_views(v: Seq<(String, String)>) -> Seq<(Seq<char>, Seq<char>)> {
    v.map_values(|p: (String, String)| (p.0@, p.1@))
}

/// The compact notation of visual parameters.
pub open spec fn visual_text(p: VisualView) -> Seq<char> {
    "vp:{mR:"@ + p.0 + ",mF:"@ + p.1 + ",dG:"@ + p.2 + ",cD:"@ + p.3 + ",vO:"@ + p.4 + ",mS:"@ + p.5 + "}"@
}

/// Values that the notation can carry: no `,` in the first five values and
/// no `}` in the last.
pub open spec fn plain_visual(p: VisualView) -> bool {
    !p.0.contains(',') && !p.1.contains(',') && !p.2.contains(',') && !p.3.contains(',') && !p.4.contains(',')
        && !p.5.contains('}')
}

/// A decimal digit.
pub open spec fn is_digit(c: char) -> bool {
    '0' <= c && c <= '9'
}

/// An unsigned decimal number: digits with at most one dot, starting and
/// ending with a digit (`0`, `12`, `0.55`).
pub open spec fn unsigned_decimal(u: Seq<char>) -> bool {
    &&& u.len() > 0
    &&& is_digit(u[0])
    &&& is_digit(u[u.len() - 1])
    &&& forall|i: int| 0 <= i < u.len() ==> is_digit(#[trigger] u[i]) || u[i] == '.'
    &&& forall|i: int, j: int| 0 <= i < j < u.len() ==> !(#[trigger] u[i] == '.' && #[trigger] u[j] == '.')
}

/// A decimal number, optionally negative (`-0.25`): the text of a finite
/// value rendered with fixed decimals.
pub open spec fn numeric_text(t: Seq<char>) -> bool {
    if t.len() > 0 && t[0] == '-' {
        unsigned_decimal(t.drop_first())
    } else {
        unsigned_decimal(t)
    }
}

/// All six values are decimal numbers.
pub open spec fn numeric_visual(p: VisualView) -> bool {
    numeric_text(p.0) && numeric_text(p.1) && numeric_text(p.2) && numeric_text(p.3) && numeric_text(p.4) && numeric_text(p.5)
}

fn is_digit_char(c: char) -> (r: bool)
    ensures
        r == is_digit(c),
{
    '0' <= c && c <= '9'
}

/// Whether `t` is a decimal number (see `numeric_text`).
fn is_numeric(t: &str) -> (r: bool)
    ensures
        r == numeric_text(t@),
{
    let cs = chars_of(t);
    let n = cs.len();
    let start: usize = if n > 0 && cs[0] == '-' { 1 } else { 0 };
    let ghost u = if n > 0 && cs@[0] == '-' { cs@.drop_first() } else { cs@ };
    proof {
        assert(u =~= cs@.skip(start as int));
    }
    assert(numeric_text(t@) == unsigned_decimal(u));
    assert(u.len() == n - start);
    assert(forall|i: int| 0 <= i < u.len() ==> u[i] == cs@[i + start]);
    if start >= n {
        return false;
    }
    if !is_digit_char(cs[start]) || !is_digit_char(cs[n - 1]) {
        proof {
            assert(u[0] == cs@[start as int]);
            assert(u[u.len() - 1] == cs@[n - 1]);
        }
        return false;
    }
    let mut seen = false;
    let mut k: usize = start;
    while k < n
        invariant
            n == cs@.len(),
            numeric_text(t@) == unsigned_decimal(u),
            start <= k <= n,
            u.len() == n - start,
            forall|i: int| 0 <= i < u.len() ==> u[i] == cs@[i + start],
            forall|i: int| 0 <= i < k - start ==> is_digit(#[trigger] u[i]) || u[i] == '.',
            seen <==> exists|i: int| 0 <= i < k - start && #[trigger] u[i] == '.',
            forall|i: int, j: int| 0 <= i < j < k - start ==> !(#[trigger] u[i] == '.' && #[trigger] u[j] == '.'),
        decreases n - k,
    {
        let c = cs[k];
        assert(u[k - start] == c);
        if c == '.' {
            if seen {
                proof {
                    let i = choose|i: int| 0 <= i < k - start && #[trigger] u[i] == '.';
                    assert(u[i] == '.' && u[k - start] == '.');
                    assert(!unsigned_decimal(u));
                }
                return false;
            }
            seen = true;
        } else if !is_digit_char(c) {
            proof {
                assert(!(is_digit(u[k - start]) || u[k - start] == '.'));
                assert(!unsigned_decimal(u));
            }
            return false;
        }
        k = k + 1;
    }
    proof {
        assert(u[0] == cs@[start as int]);
        assert(u[u.len() - 1] == cs@[n - 1]);
    }
    true
}

/// Decimal numbers hold neither `,` nor `}`.
proof fn lemma_numeric_plain(t: Seq<char>)
    requires
        numeric_text(t),
    ensures
        !t.contains(','),
        !t.contains('}'),
{
    let u = if t.len() > 0 && t[0] == '-' { t.drop_first() } else { t };
    if t.contains(',') {
        let i = choose|i: int| 0 <= i < t.len() && t[i] == ',';
        if t.len() > 0 && t[0] == '-' {
            assert(i > 0);
            assert(u[i - 1] == t[i]);
        } else {
            assert(u[i] == t[i]);
        }
    }
    if t.contains('}') {
        let i = choose|i: int| 0 <= i < t.len() && t[i] == '}';
        if t.len() > 0 && t[0] == '-' {
            assert(i > 0);
            assert(u[i - 1] == t[i]);
        } else {
            assert(u[i] == t[i]);
        }
    }
}

/// Numeric visual parameters survive compression: their notation parses
/// back to them.
pub proof fn lemma_numeric_visual_roundtrip(p: VisualView)
    requires
        numeric_visual(p),
    ensures
        parse_visual(visual_text(p)) == Some(p),
{
    lemma_numeric_plain(p.0);
    lemma_numeric_plain(p.1);
    lemma_numeric_plain(p.2);
    lemma_numeric_plain(p.3);
    lemma_numeric_plain(p.4);
    lemma_numeric_plain(p.5);
    lemma_parse_complete(p);
}

/// The first position at or after `pos` that holds `c`.
pub open spec fn first_from(s: Seq<char>, pos: int, c: char) -> Option<int>
    decreases s.len() - pos,
{
    if pos < 0 || pos >= s.len() {
        None
    } else if s[pos] == c {
        Some(pos)
    } else {
        first_from(s, pos + 1, c)
    }
}

/// The position after literal `lit` at `pos`, if `s` holds it there.
pub open spec fn lit_at(s: Seq<char>, pos: int, lit: Seq<char>) -> Option<int> {
    if 0 <= pos && pos + lit.len() <= s.len() && s.subrange(pos, pos + lit.len()) == lit {
        Some(pos + lit.len())
    } else {
        None
    }
}

/// The text from `pos` up to the next `stop`, and the position after the stop.
pub open spec fn field_at(s: Seq<char>, pos: int, stop: char) -> Option<(Seq<char>, int)> {
    match first_from(s, pos, stop) {
        Some(j) => Some((s.subrange(pos, j), j + 1)),
        None => None,
    }
}

/// The field ending in `stop` that follows literal `lit` at `pos`.
pub open spec fn labeled_field(s: Seq<char>, pos: int, lit: Seq<char>, stop: char) -> Option<(Seq<char>, int)> {
    match lit_at(s, pos, lit) {
        Some(q) => field_at(s, q, stop),
        None => None,
    }
}

/// Parses the compact notation.
pub open spec fn parse_visual(s: Seq<char>) -> Option<VisualView> {
    match labeled_field(s, 0, "vp:{mR:"@, ',') {
        None => None,
        Some((a, p1)) => match labeled_field(s, p1, "mF:"@, ',') {
            None => None,
            Some((b, p2)) => match labeled_field(s, p2, "dG:"@, ',') {
                None => None,
                Some((c, p3)) => match labeled_field(s, p3, "cD:"@, ',') {
                    None => None,
                    Some((d, p4)) => match labeled_field(s, p4, "vO:"@, ',') {
                        None => None,
                        Some((e, p5)) => match labeled_field(s, p5, "mS:"@, '}') {
                            None => None,
                            Some((f, p6)) => if p6 == s.len() {
                                Some((a, b, c, d, e, f))
                            } else {
                                None
                            },
                        },
                    },
                },
            },
        },
    }
}

/// The first position at or after `pos` that holds `c`.
fn find_from(s: &Vec<char>, pos: usize, c: char) -> (r: Option<usize>)
    requires
        pos <= s@.len(),
    ensures
        match r {
            Some(j) => first_from(s@, pos as int, c) == Some(j as int),
            None => first_from(s@, pos as int, c) is None,
        },
    decreases s@.len() - pos,
{
    if pos == s.len() {
        return None;
    }
    if s[pos] == c {
        Some(pos)
    } else {
        find_from(s, pos + 1, c)
    }
}

/// Whether `s` holds `lit` at `pos`; the position after it.
fn literal_at(s: &Vec<char>, pos: usize, lit: &str) -> (r: Option<usize>)
    requires
        pos <= s@.len(),
    ensures
        match r {
            Some(q) => lit_at(s@, pos as int, lit@) == Some(q as int) && q <= s@.len(),
            None => lit_at(s@, pos as int, lit@) is None,
        },
{
    let l = chars_of(lit);
    if l.len() > s.len() - pos {
        return None;
    }
    let mut k: usize = 0;
    while k < l.len()
        invariant
            pos + l@.len() <= s@.len(),
            s@.len() <= usize::MAX,
            l@ == lit@,
            k <= l@.len(),
            forall|m: int| 0 <= m < k ==> s@[pos + m] == l@[m],
        decreases l@.len() - k,
    {
        if s[pos + k] != l[k] {
            proof {
                assert(s@.subrange(pos as int, pos + l@.len())[k as int] != lit@[k as int]);
            }
            return None;
        }
        k = k + 1;
    }
    proof {
        assert(s@.subrange(pos as int, pos + l@.len()) =~= lit@);
    }
    Some(pos + l.len())
}

/// The text between `from` and `to` (exclusive).
fn slice_text(s: &Vec<char>, from: usize, to: usize) -> (r: String)
    requires
        from <= to <= s@.len(),
    ensures
        r@ == s@.subrange(from as int, to as int),
{
    let mut v: Vec<char> = Vec::new();
    let mut i: usize = from;
    while i < to
        invariant
            from <= i <= to,
            to <= s@.len(),
            v@ == s@.subrange(from as int, i as int),
        decreases to - i,
    {
        v.push(s[i]);
        i = i + 1;
        proof {
            assert(v@ =~= s@.subrange(from as int, i as int));
        }
    }
    string_of(&v)
}

fn read_labeled(s: &Vec<char>, pos: usize, lit: &str, stop: char) -> (r: Option<(String, usize)>)
    requires
        pos <= s@.len(),
    ensures
        match r {
            Some((f, q)) => labeled_field(s@, pos as int, lit@, stop) == Some((f@, q as int)) && q <= s@.len(),
            None => labeled_field(s@, pos as int, lit@, stop) is None,
        },
{
    let q = literal_at(s, pos, lit)?;
    let j = find_from(s, q, stop)?;
    proof {
        lemma_first_from_bounds(s@, q as int, stop);
    }
    let n = s.len();
    assert(j < n);
    Some((slice_text(s, q, j), j + 1))
}

proof fn lemma_first_from_bounds(s: Seq<char>, pos: int, c: char)
    ensures
        first_from(s, pos, c) matches Some(j) ==> pos <= j < s.len() && s[j] == c
            && forall|k: int| pos <= k < j ==> s[k] != c,
    decreases s.len() - pos,
{
    if 0 <= pos < s.len() && s[pos] != c {
        lemma_first_from_bounds(s, pos + 1, c);
    }
}

impl SchemaCompressor {
    /// The field-name → short-key pairs this compressor holds.
    pub closed spec fn spec_pairs(&self) -> Seq<(Seq<char>, Seq<char>)> {
        pair_views(self.field_map@)
    }

    /// The compressor with the standard visual, audio and BCI field keys.
    pub fn new() -> (r: Self)
        ensures
            r.spec_pairs() == compressor_pairs(),
    {
        let names = [
            "maskRadius", "maskFeather", "decayGrain", "colorDesat", "veinOverlay", "motionSmear",
            "infectedChannelGain", "squadMuffle", "heartbeatGain", "breathGain", "ringingLevel", "direct",
            "stressScore", "visualOverloadIndex", "startleSpike", "signalQuality", "stressBand", "attentionBand",
        ];
        let keys = ["mR", "mF", "dG", "cD", "vO", "mS", "iG", "sM", "hG", "bG", "rL", "dL", "S", "V", "Sp", "Q", "SB", "AB"];
        let mut field_map: Vec<(String, String)> = Vec::new();
        let mut i: usize = 0;
        while i < 18
            invariant
                i <= 18,
                names@.len() == 18,
                keys@.len() == 18,
                forall|k: int| 0 <= k < 18 ==> (#[trigger] names@[k])@ == compressor_pairs()[k].0 && keys@[k]@ == compressor_pairs()[k].1,
                pair_views(field_map@) == compressor_pairs().take(i as int),
            decreases 18 - i,
        {
            let ghost before = field_map@;
            field_map.push((String::from_str(names[i]), String::from_str(keys[i])));
            proof {
                assert(pair_views(field_map@) =~= pair_views(before).push((names@[i as int]@, keys@[i as int]@)));
                assert(compressor_pairs().take(i + 1) =~= compressor_pairs().take(i as int).push(compressor_pairs()[i as int]));
            }
            i = i + 1;
        }
        proof {
            assert(compressor_pairs().take(18) =~= compressor_pairs());
        }
        SchemaCompressor { field_map }
    }

    /// The compact notation of `params`.
    pub fn compress_visual_params(&self, params: &VisualParams) -> (r: String)
        ensures
            r@ == visual_text(params@),
    {
        let mut s = String::from_str("vp:{mR:");
        s.append(params.mask_radius.as_str());
        s.append(",mF:");
        s.append(params.mask_feather.as_str());
        s.append(",dG:");
        s.append(params.decay_grain.as_str());
        s.append(",cD:");
        s.append(params.color_desat.as_str());
        s.append(",vO:");
        s.append(params.vein_overlay.as_str());
        s.append(",mS:");
        s.append(params.motion_smear.as_str());
        s.append("}");
        proof {
            assert(s@ =~= visual_text(params@));
        }
        s
    }

    /// Parses the compact notation back into visual parameters. Each of the
    /// six values must be a decimal number; any other text is refused.
    pub fn decompress_visual_params(&self, compressed: &str) -> (r: Result<VisualParams, String>)
        ensures
            match parse_visual(compressed@) {
                Some(p) => if numeric_visual(p) {
                    r matches Ok(v) && v@ == p
                } else {
                    r matches Err(m) && m@ == "Invalid visual params: "@ + compressed@
                },
                None => r matches Err(m) && m@ == "Invalid visual params: "@ + compressed@,
            },
    {
        let s = chars_of(compressed);
        let parsed = parse_visual_chars(&s);
        match parsed {
            Some(v) => {
                if is_numeric(v.mask_radius.as_str()) && is_numeric(v.mask_feather.as_str()) && is_numeric(v.decay_grain.as_str())
                    && is_numeric(v.color_desat.as_str()) && is_numeric(v.vein_overlay.as_str()) && is_numeric(v.motion_smear.as_str()) {
                    Ok(v)
                } else {
                    let mut m = String::from_str("Invalid visual params: ");
                    m.append(compressed);
                    Err(m)
                }
            },
            None => {
                let mut m = String::from_str("Invalid visual params: ");
                m.append(compressed);
                Err(m)
            },
        }
    }
}

fn parse_visual_chars(s: &Vec<char>) -> (r: Option<VisualParams>)
    ensures
        match parse_visual(s@) {
            Some(p) => r matches Some(v) && v@ == p,
            None => r is None,
        },
{
    let (a, p1) = read_labeled(s, 0, "vp:{mR:", ',')?;
    let (b, p2) = read_labeled(s, p1, "mF:", ',')?;
    let (c, p3) = read_labeled(s, p2, "dG:", ',')?;
    let (d, p4) = read_labeled(s, p3, "cD:", ',')?;
    let (e, p5) = read_labeled(s, p4, "vO:", ',')?;
    let (f, p6) = read_labeled(s, p5, "mS:", '}')?;
    if p6 != s.len() {
        return None;
    }
    Some(VisualParams { mask_radius: a, mask_feather: b, decay_grain: c, color_desat: d, vein_overlay: e, motion_smear: f })
}

proof fn lemma_first_after_field(s: Seq<char>, pos: int, f: Seq<char>, c: char)
    requires
        0 <= pos,
        pos + f.len() < s.len(),
        s.subrange(pos, pos + f.len()) == f,
        !f.contains(c),
        s[pos + f.len()] == c,
    ensures
        first_from(s, pos, c) == Some(pos + f.len()),
    decreases f.len(),
{
    if f.len() > 0 {
        assert(s[pos] == f[0]);
        assert(f.contains(f[0]));
        assert(s.subrange(pos + 1, pos + 1 + f.drop_first().len()) =~= f.drop_first());
        assert forall|x: char| f.drop_first().contains(x) implies f.contains(x) by {
            let k = choose|k: int| 0 <= k < f.drop_first().len() && f.drop_first()[k] == x;
            assert(f[k + 1] == x);
        }
        lemma_first_after_field(s, pos + 1, f.drop_first(), c);
    }
}

proof fn lemma_labeled_step(x: Seq<char>, lit: Seq<char>, f: Seq<char>, c: char, y: Seq<char>)
    requires
        !f.contains(c),
    ensures
        labeled_field(x + lit + f + seq![c] + y, x.len() as int, lit, c)
            == Some((f, (x.len() + lit.len() + f.len() + 1) as int)),
{
    let s = x + lit + f + seq![c] + y;
    assert(s.subrange(x.len() as int, x.len() + lit.len() as int) =~= lit);
    let q: int = (x.len() + lit.len()) as int;
    assert(s.subrange(q, q + f.len()) =~= f);
    assert(s[q + f.len()] == c);
    lemma_first_after_field(s, q, f, c);
}

proof fn lemma_complete_step0(p: VisualView)
    requires
        plain_visual(p),
    ensures
        ({
            let (a, b, c, d, e, f) = p;
            let x = Seq::<char>::empty();
            labeled_field(visual_text(p), x.len() as int, "vp:{mR:"@, ',') == Some((a, (x.len() + "vp:{mR:"@.len() + a.len() + 1) as int))
        }),
{
    reveal_strlit("vp:{mR:");
    reveal_strlit(",mF:");
    reveal_strlit("mF:");
    reveal_strlit(",dG:");
    reveal_strlit("dG:");
    reveal_strlit(",cD:");
    reveal_strlit("cD:");
    reveal_strlit(",vO:");
    reveal_strlit("vO:");
    reveal_strlit(",mS:");
    reveal_strlit("mS:");
    reveal_strlit("}");
    let (a, b, c, d, e, f) = p;
    let x = Seq::<char>::empty();
    let y = "mF:"@ + b + ",dG:"@ + c + ",cD:"@ + d + ",vO:"@ + e + ",mS:"@ + f + "}"@;
    assert(visual_text(p) =~= x + "vp:{mR:"@ + a + seq![','] + y);
    lemma_labeled_step(x, "vp:{mR:"@, a, ',', y);
}

proof fn lemma_complete_step1(p: VisualView)
    requires
        plain_visual(p),
    ensures
        ({
            let (a, b, c, d, e, f) = p;
            let x = "vp:{mR:"@ + a + seq![','];
            labeled_field(visual_text(p), x.len() as int, "mF:"@, ',') == Some((b, (x.len() + "mF:"@.len() + b.len() + 1) as int))
        }),
{
    reveal_strlit("vp:{mR:");
    reveal_strlit(",mF:");
    reveal_strlit("mF:");
    reveal_strlit(",dG:");
    reveal_strlit("dG:");
    reveal_strlit(",cD:");
    reveal_strlit("cD:");
    reveal_strlit(",vO:");
    reveal_strlit("vO:");
    reveal_strlit(",mS:");
    reveal_strlit("mS:");
    reveal_strlit("}");
    let (a, b, c, d, e, f) = p;
    let x = "vp:{mR:"@ + a + seq![','];
    let y = "dG:"@ + c + ",cD:"@ + d + ",vO:"@ + e + ",mS:"@ + f + "}"@;
    assert(visual_text(p) =~= x + "mF:"@ + b + seq![','] + y);
    lemma_labeled_step(x, "mF:"@, b, ',', y);
}

proof fn lemma_complete_step2(p: VisualView)
    requires
        plain_visual(p),
    ensures
        ({
            let (a, b, c, d, e, f) = p;
            let x = "vp:{mR:"@ + a + ",mF:"@ + b + seq![','];
            labeled_field(visual_text(p), x.len() as int, "dG:"@, ',') == Some((c, (x.len() + "dG:"@.len() + c.len() + 1) as int))
        }),
{
    reveal_strlit("vp:{mR:");
    reveal_strlit(",mF:");
    reveal_strlit("mF:");
    reveal_strlit(",dG:");
    reveal_strlit("dG:");
    reveal_strlit(",cD:");
    reveal_strlit("cD:");
    reveal_strlit(",vO:");
    reveal_strlit("vO:");
    reveal_strlit(",mS:");
    reveal_strlit("mS:");
    reveal_strlit("}");
    let (a, b, c, d, e, f) = p;
    let x = "vp:{mR:"@ + a + ",mF:"@ + b + seq![','];
    let y = "cD:"@ + d + ",vO:"@ + e + ",mS:"@ + f + "}"@;
    assert(visual_text(p) =~= x + "dG:"@ + c + seq![','] + y);
    lemma_labeled_step(x, "dG:"@, c, ',', y);
}

proof fn lemma_complete_step3(p: VisualView)
    requires
        plain_visual(p),
    ensures
        ({
            let (a, b, c, d, e, f) = p;
            let x = "vp:{mR:"@ + a + ",mF:"@ + b + ",dG:"@ + c + seq![','];
            labeled_field(visual_text(p), x.len() as int, "cD:"@, ',') == Some((d, (x.len() + "cD:"@.len() + d.len() + 1) as int))
        }),
{
    reveal_strlit("vp:{mR:");
    reveal_strlit(",mF:");
    reveal_strlit("mF:");
    reveal_strlit(",dG:");
    reveal_strlit("dG:");
    reveal_strlit(",cD:");
    reveal_strlit("cD:");
    reveal_strlit(",vO:");
    reveal_strlit("vO:");
    reveal_strlit(",mS:");
    reveal_strlit("mS:");
    reveal_strlit("}");
    let (a, b, c, d, e, f) = p;
    let x = "vp:{mR:"@ + a + ",mF:"@ + b + ",dG:"@ + c + seq![','];
    let y = "vO:"@ + e + ",mS:"@ + f + "}"@;
    assert(visual_text(p) =~= x + "cD:"@ + d + seq![','] + y);
    lemma_labeled_step(x, "cD:"@, d, ',', y);
}

proof fn lemma_complete_step4(p: VisualView)
    requires
        plain_visual(p),
    ensures
        ({
            let (a, b, c, d, e, f) = p;
            let x = "vp:{mR:"@ + a + ",mF:"@ + b + ",dG:"@ + c + ",cD:"@ + d + seq![','];
            labeled_field(visual_text(p), x.len() as int, "vO:"@, ',') == Some((e, (x.len() + "vO:"@.len() + e.len() + 1) as int))
        }),
{
    reveal_strlit("vp:{mR:");
    reveal_strlit(",mF:");
    reveal_strlit("mF:");
    reveal_strlit(",dG:");
    reveal_strlit("dG:");
    reveal_strlit(",cD:");
    reveal_strlit("cD:");
    reveal_strlit(",vO:");
    reveal_strlit("vO:");
    reveal_strlit(",mS:");
    reveal_strlit("mS:");
    reveal_strlit("}");
    let (a, b, c, d, e, f) = p;
    let x = "vp:{mR:"@ + a + ",mF:"@ + b + ",dG:"@ + c + ",cD:"@ + d + seq![','];
    let y = "mS:"@ + f + "}"@;
    assert(visual_text(p) =~= x + "vO:"@ + e + seq![','] + y);
    lemma_labeled_step(x, "vO:"@, e, ',', y);
}

proof fn lemma_complete_step5(p: VisualView)
    requires
        plain_visual(p),
    ensures
        ({
            let (a, b, c, d, e, f) = p;
            let x = "vp:{mR:"@ + a + ",mF:"@ + b + ",dG:"@ + c + ",cD:"@ + d + ",vO:"@ + e + seq![','];
            labeled_field(visual_text(p), x.len() as int, "mS:"@, '}') == Some((f, (x.len() + "mS:"@.len() + f.len() + 1) as int))
        }),
{
    reveal_strlit("vp:{mR:");
    reveal_strlit(",mF:");
    reveal_strlit("mF:");
    reveal_strlit(",dG:");
    reveal_strlit("dG:");
    reveal_strlit(",cD:");
    reveal_strlit("cD:");
    reveal_strlit(",vO:");
    reveal_strlit("vO:");
    reveal_strlit(",mS:");
    reveal_strlit("mS:");
    reveal_strlit("}");
    let (a, b, c, d, e, f) = p;
    let x = "vp:{mR:"@ + a + ",mF:"@ + b + ",dG:"@ + c + ",cD:"@ + d + ",vO:"@ + e + seq![','];
    let y = Seq::<char>::empty();
    assert(visual_text(p) =~= x + "mS:"@ + f + seq!['}'] + y);
    lemma_labeled_step(x, "mS:"@, f, '}', y);
}

proof fn lemma_parse_complete(p: VisualView)
    requires
        plain_visual(p),
    ensures
        parse_visual(visual_text(p)) == Some(p),
{
    reveal_strlit("vp:{mR:");
    reveal_strlit(",mF:");
    reveal_strlit("mF:");
    reveal_strlit(",dG:");
    reveal_strlit("dG:");
    reveal_strlit(",cD:");
    reveal_strlit("cD:");
    reveal_strlit(",vO:");
    reveal_strlit("vO:");
    reveal_strlit(",mS:");
    reveal_strlit("mS:");
    reveal_strlit("}");
    lemma_complete_step0(p);
    lemma_complete_step1(p);
    lemma_complete_step2(p);
    lemma_complete_step3(p);
    lemma_complete_step4(p);
    lemma_complete_step5(p);
}

/// Compressing plain visual parameters and parsing the result gives them
/// back, and every text that parses is the compact notation of the plain
/// parameters it parses to.
pub proof fn lemma_visual_roundtrip(p: VisualView, s: Seq<char>)
    ensures
        plain_visual(p) ==> parse_visual(visual_text(p)) == Some(p),
        parse_visual(s) matches Some(q) ==> visual_text(q) == s && plain_visual(q),
{
    if plain_visual(p) {
        lemma_parse_complete(p);
    }
    if parse_visual(s) is Some {
        lemma_parse_sound(s);
    }
}

proof fn lemma_field_sound(s: Seq<char>, pos: int, lit: Seq<char>, stop: char)
    requires
        labeled_field(s, pos, lit, stop) is Some,
    ensures
        ({
            let (f, q) = labeled_field(s, pos, lit, stop).unwrap();
            &&& 0 <= pos
            &&& q == pos + lit.len() + f.len() + 1
            &&& q <= s.len()
            &&& s.subrange(pos, q) == lit + f + seq![stop]
            &&& !f.contains(stop)
        }),
{
    let q0 = pos + lit.len();
    lemma_first_from_bounds(s, q0, stop);
    let j = first_from(s, q0, stop).unwrap();
    let f = s.subrange(q0, j);
    assert(s.subrange(pos, j + 1) =~= lit + f + seq![stop]);
    assert forall|k: int| 0 <= k < f.len() implies f[k] != stop by {
        assert(f[k] == s[q0 + k]);
    }
}

#[verifier::rlimit(40)]
proof fn lemma_parse_sound(s: Seq<char>)
    requires
        parse_visual(s) is Some,
    ensures
        visual_text(parse_visual(s).unwrap()) == s,
        plain_visual(parse_visual(s).unwrap()),
{
    reveal_strlit("vp:{mR:");
    reveal_strlit(",mF:");
    reveal_strlit("mF:");
    reveal_strlit(",dG:");
    reveal_strlit("dG:");
    reveal_strlit(",cD:");
    reveal_strlit("cD:");
    reveal_strlit(",vO:");
    reveal_strlit("vO:");
    reveal_strlit(",mS:");
    reveal_strlit("mS:");
    reveal_strlit("}");
    let (a, p1) = labeled_field(s, 0, "vp:{mR:"@, ',').unwrap();
    lemma_field_sound(s, 0, "vp:{mR:"@, ',');
    let (b, p2) = labeled_field(s, p1, "mF:"@, ',').unwrap();
    lemma_field_sound(s, p1, "mF:"@, ',');
    let (c, p3) = labeled_field(s, p2, "dG:"@, ',').unwrap();
    lemma_field_sound(s, p2, "dG:"@, ',');
    let (d, p4) = labeled_field(s, p3, "cD:"@, ',').unwrap();
    lemma_field_sound(s, p3, "cD:"@, ',');
    let (e, p5) = labeled_field(s, p4, "vO:"@, ',').unwrap();
    lemma_field_sound(s, p4, "vO:"@, ',');
    let (f, p6) = labeled_field(s, p5, "mS:"@, '}').unwrap();
    lemma_field_sound(s, p5, "mS:"@, '}');
    assert(s =~= s.subrange(0, p1) + s.subrange(p1, p2) + s.subrange(p2, p3) + s.subrange(p3, p4) + s.subrange(p4, p5)
        + s.subrange(p5, p6));
    assert(visual_text((a, b, c, d, e, f)) =~= ("vp:{mR:"@ + a + seq![',']) + ("mF:"@ + b + seq![',']) + ("dG:"@ + c + seq![','])
        + ("cD:"@ + d + seq![',']) + ("vO:"@ + e + seq![',']) + ("mS:"@ + f + seq!['}']));
}

} // verus!
