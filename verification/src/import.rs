//! The structure-import format.
//!
//! A structure file is plain text: a header line whose first token is the
//! structure's weight (a decimal number, kept in tenths), then one line per
//! spawn, `<x> <y> <kind>`, where the kind is one of a fixed vocabulary and
//! an unrecognized kind falls back to `planet`. Parsed spawns get a fixed
//! vertical bias added to `y`, and a structure's spawns are ordered by
//! ascending `y` for replay. Malformed numeric fields reject the whole
//! import with a description of the first offending line.

use vstd::prelude::*;

use vstd::multiset::Multiset;

use crate::map_layout::EnemyKind;
use crate::map_layout::SpawnEvent;
use crate::map_layout::Structure;
use crate::map_layout::SPAWN_HEIGHT;

verus! {

/// Largest magnitude a numeric field may carry: one million pixels for a
/// coordinate, one million points for a weight's whole part.
pub const NUMBER_FIELD_MAX: u64 = 1_000_000;

/// Vertical bias, in pixels, added to every imported `y` field.
pub const IMPORT_Y_BIAS: i32 = 600;

/// An ASCII decimal digit.
pub open spec fn is_digit(b: u8) -> bool {
    48 <= b <= 57
}

/// Every byte is a decimal digit.
pub open spec fn all_digits(s: Seq<u8>) -> bool {
    forall|i: int| 0 <= i < s.len() ==> is_digit(#[trigger] s[i])
}

/// The number the digit string `s` denotes.
pub open spec fn digits_val(s: Seq<u8>) -> int
    decreases s.len(),
{
    if s.len() == 0 {
        0
    } else {
        digits_val(s.drop_last()) * 10 + (s.last() - 48)
    }
}

/// A digit string denotes a non-negative number.
pub proof fn lemma_digits_val_nonneg(s: Seq<u8>)
    requires
        all_digits(s),
    ensures
        digits_val(s) >= 0,
    decreases s.len(),
{
    if s.len() > 0 {
        assert(all_digits(s.drop_last()));
        lemma_digits_val_nonneg(s.drop_last());
    }
}

/// `s` split at every occurrence of `sep`: always at least one piece, and
/// no piece contains the separator.
pub open spec fn split_seq(s: Seq<u8>, sep: u8) -> Seq<Seq<u8>>
    decreases s.len(),
{
    if s.len() == 0 {
        seq![Seq::empty()]
    } else if s.last() == sep {
        split_seq(s.drop_last(), sep).push(Seq::empty())
    } else {
        let ps = split_seq(s.drop_last(), sep);
        ps.update(ps.len() - 1, ps.last().push(s.last()))
    }
}

/// A split has at least one piece.
pub proof fn lemma_split_seq_len(s: Seq<u8>, sep: u8)
    ensures
        split_seq(s, sep).len() >= 1,
    decreases s.len(),
{
    if s.len() > 0 {
        lemma_split_seq_len(s.drop_last(), sep);
    }
}

/// The views of a sequence of byte vectors.
pub open spec fn views_of(vs: Seq<Vec<u8>>) -> Seq<Seq<u8>> {
    vs.map_values(|v: Vec<u8>| v@)
}

/// Split a byte string at every occurrence of `sep`.
pub fn split_bytes(s: &Vec<u8>, sep: u8) -> (ps: Vec<Vec<u8>>)
    ensures
        views_of(ps@) == split_seq(s@, sep),
        ps@.len() >= 1,
{
    let mut out: Vec<Vec<u8>> = Vec::new();
    out.push(Vec::new());
    proof {
        assert(views_of(out@) =~= split_seq(s@.subrange(0, 0), sep));
    }
    let n: usize = s.len();
    let mut i: usize = 0;
    while i < n
        invariant
            i <= n == s@.len(),
            out@.len() >= 1,
            views_of(out@) == split_seq(s@.subrange(0, i as int), sep),
        decreases n - i,
    {
        let ghost pre = s@.subrange(0, i as int);
        let ghost now = s@.subrange(0, i as int + 1);
        proof {
            assert(now.drop_last() =~= pre);
            assert(now.last() == s@[i as int]);
            lemma_split_seq_len(pre, sep);
        }
        let b: u8 = s[i];
        if b == sep {
            out.push(Vec::new());
            proof {
                assert(views_of(out@) =~= split_seq(pre, sep).push(Seq::<u8>::empty()));
            }
        } else {
            let last: usize = out.len() - 1;
            out[last].push(b);
            proof {
                let ps = split_seq(pre, sep);
                assert(views_of(out@) =~= ps.update(ps.len() - 1, ps.last().push(s@[i as int])));
            }
        }
        i = i + 1;
    }
    proof {
        assert(s@.subrange(0, n as int) =~= s@);
        lemma_split_seq_len(s@, sep);
        assert(out@.len() == views_of(out@).len());
    }
    out
}

/// A valid integer field: an optional minus sign, then at least one digit,
/// denoting a magnitude within the coordinate bound.
pub open spec fn valid_int(s: Seq<u8>) -> bool {
    if s.len() >= 1 && s[0] == 45 {
        s.len() >= 2 && all_digits(s.skip(1)) && digits_val(s.skip(1)) <= NUMBER_FIELD_MAX as int
    } else {
        s.len() >= 1 && all_digits(s) && digits_val(s) <= NUMBER_FIELD_MAX as int
    }
}

/// The number a valid integer field denotes.
pub open spec fn int_val(s: Seq<u8>) -> int {
    if s.len() >= 1 && s[0] == 45 {
        -digits_val(s.skip(1))
    } else {
        digits_val(s)
    }
}

/// Parse an unsigned digit string, watching the coordinate bound. Returns
/// the denoted value when the string is all digits, at least one, and in
/// bounds.
fn parse_digits(s: &Vec<u8>, from: usize) -> (r: Option<u64>)
    requires
        from <= s@.len(),
    ensures
        r is Some <==> s@.len() - from >= 1 && all_digits(s@.skip(from as int)) && digits_val(
            s@.skip(from as int),
        ) <= NUMBER_FIELD_MAX as int,
        r matches Some(v) ==> v as int == digits_val(s@.skip(from as int)),
{
    let n: usize = s.len();
    if n == from {
        proof {
            assert(s@.skip(from as int).len() == 0);
        }
        return None;
    }
    let mut acc: u64 = 0;
    let mut i: usize = from;
    while i < n
        invariant
            from <= i <= n == s@.len(),
            all_digits(s@.subrange(from as int, i as int)),
            digits_val(s@.subrange(from as int, i as int)) <= NUMBER_FIELD_MAX as int ==> acc
                as int == digits_val(s@.subrange(from as int, i as int)),
            digits_val(s@.subrange(from as int, i as int)) > NUMBER_FIELD_MAX as int ==> acc
                > NUMBER_FIELD_MAX,
            acc <= 10 * NUMBER_FIELD_MAX + 9,
        decreases n - i,
    {
        let b: u8 = s[i];
        if b < 48 || b > 57 {
            proof {
                assert(s@.skip(from as int)[i as int - from as int] == s@[i as int]);
            }
            return None;
        }
        let d: u64 = (b - 48) as u64;
        proof {
            let pre = s@.subrange(from as int, i as int);
            let now = s@.subrange(from as int, i as int + 1);
            assert(now.drop_last() =~= pre);
            assert(now.last() == s@[i as int]);
            lemma_digits_val_nonneg(pre);
        }
        if acc > NUMBER_FIELD_MAX {
            acc = 10 * NUMBER_FIELD_MAX + 9;
        } else {
            acc = acc * 10 + d;
        }
        i = i + 1;
    }
    proof {
        assert(s@.subrange(from as int, n as int) =~= s@.skip(from as int));
        lemma_digits_val_nonneg(s@.skip(from as int));
    }
    if acc > NUMBER_FIELD_MAX {
        None
    } else {
        Some(acc)
    }
}

/// Parse an integer field.
pub fn parse_int(s: &Vec<u8>) -> (r: Option<i64>)
    ensures
        r is Some <==> valid_int(s@),
        r matches Some(v) ==> v as int == int_val(s@) && -(NUMBER_FIELD_MAX as i64) <= v
            <= NUMBER_FIELD_MAX as i64,
{
    if s.len() >= 1 && s[0] == 45 {
        match parse_digits(s, 1) {
            Some(v) => Some(-(v as i64)),
            None => None,
        }
    } else {
        match parse_digits(s, 0) {
            Some(v) => {
                proof {
                    assert(s@.skip(0) =~= s@);
                }
                Some(v as i64)
            },
            None => {
                proof {
                    assert(s@.skip(0) =~= s@);
                }
                None
            },
        }
    }
}

/// A valid weight field: digits with at most one dot, at least one digit in
/// all, whole part within the weight bound. `7`, `0.2` and `.5` are all
/// valid.
pub open spec fn valid_weight(s: Seq<u8>) -> bool {
    let ps = split_seq(s, 46);
    if ps.len() == 1 {
        s.len() >= 1 && all_digits(s) && digits_val(s) <= NUMBER_FIELD_MAX as int
    } else {
        ps.len() == 2 && all_digits(ps[0]) && all_digits(ps[1]) && digits_val(ps[0])
            <= NUMBER_FIELD_MAX as int && ps[0].len() + ps[1].len() >= 1
    }
}

/// The weight a valid weight field denotes, in tenths: the whole part times
/// ten plus the first fractional digit; finer digits are dropped.
pub open spec fn weight_tenths(s: Seq<u8>) -> int {
    let ps = split_seq(s, 46);
    if ps.len() == 1 {
        digits_val(s) * 10
    } else {
        digits_val(ps[0]) * 10 + (if ps[1].len() > 0 {
            (ps[1][0] - 48) as int
        } else {
            0
        })
    }
}

/// A piece of a one-separator split equals the whole when nothing was split
/// off.
proof fn lemma_split_single(s: Seq<u8>, sep: u8)
    requires
        split_seq(s, sep).len() == 1,
    ensures
        split_seq(s, sep)[0] == s,
    decreases s.len(),
{
    if s.len() > 0 {
        lemma_split_seq_len(s.drop_last(), sep);
        if s.last() == sep {
        } else {
            lemma_split_single(s.drop_last(), sep);
            assert(split_seq(s, sep)[0] =~= s);
        }
    } else {
        assert(split_seq(s, sep)[0] =~= s);
    }
}

/// Parse a weight field into tenths of a weight point.
pub fn parse_weight(s: &Vec<u8>) -> (r: Option<u64>)
    ensures
        r is Some <==> valid_weight(s@),
        r matches Some(v) ==> v as int == weight_tenths(s@),
{
    let parts: Vec<Vec<u8>> = split_bytes(s, 46);
    proof {
        assert(views_of(parts@).len() == parts@.len());
    }
    if parts.len() == 1 {
        proof {
            lemma_split_single(s@, 46);
            assert(views_of(parts@)[0] == parts@[0]@);
        }
        match parse_digits(&parts[0], 0) {
            Some(v) => {
                proof {
                    assert(parts@[0]@.skip(0) =~= parts@[0]@);
                }
                Some(v * 10)
            },
            None => {
                proof {
                    assert(parts@[0]@.skip(0) =~= parts@[0]@);
                }
                None
            },
        }
    } else if parts.len() == 2 {
        proof {
            assert(views_of(parts@)[0] == parts@[0]@);
            assert(views_of(parts@)[1] == parts@[1]@);
        }
        let whole: Option<u64> = parse_digits(&parts[0], 0);
        proof {
            assert(parts@[0]@.skip(0) =~= parts@[0]@);
        }
        let frac: &Vec<u8> = &parts[1];
        let mut frac_ok: bool = true;
        let fn_len: usize = frac.len();
        let mut j: usize = 0;
        while j < fn_len
            invariant
                j <= fn_len == frac@.len(),
                frac_ok <==> all_digits(frac@.subrange(0, j as int)),
            decreases fn_len - j,
        {
            let b: u8 = frac[j];
            proof {
                let pre = frac@.subrange(0, j as int);
                let now = frac@.subrange(0, j as int + 1);
                assert(now.drop_last() =~= pre);
                assert(now.last() == frac@[j as int]);
            }
            if b < 48 || b > 57 {
                frac_ok = false;
            }
            j = j + 1;
        }
        proof {
            assert(frac@.subrange(0, fn_len as int) =~= frac@);
        }
        match whole {
            Some(w) => {
                if !frac_ok {
                    None
                } else {
                    let tenth: u64 = if frac.len() > 0 {
                        (frac[0] - 48) as u64
                    } else {
                        0
                    };
                    Some(w * 10 + tenth)
                }
            },
            None => {
                if parts[0].len() == 0 {
                    // An empty whole part is fine when digits follow the dot.
                    if frac_ok && frac.len() > 0 {
                        proof {
                            assert(parts@[0]@.len() == 0);
                            assert(digits_val(parts@[0]@) == 0);
                        }
                        let tenth: u64 = (frac[0] - 48) as u64;
                        Some(tenth)
                    } else {
                        None
                    }
                } else {
                    None
                }
            },
        }
    } else {
        None
    }
}

/// The bytes of `blackhole`.
pub open spec fn kw_blackhole() -> Seq<u8> {
    seq![98u8, 108, 97, 99, 107, 104, 111, 108, 101]
}

/// The bytes of `rainbow`.
pub open spec fn kw_rainbow() -> Seq<u8> {
    seq![114u8, 97, 105, 110, 98, 111, 119]
}

/// The bytes of `energybar`.
pub open spec fn kw_energybar() -> Seq<u8> {
    seq![101u8, 110, 101, 114, 103, 121, 98, 97, 114]
}

/// The bytes of `regular`.
pub open spec fn kw_regular() -> Seq<u8> {
    seq![114u8, 101, 103, 117, 108, 97, 114]
}

/// The bytes of `plane`.
pub open spec fn kw_plane() -> Seq<u8> {
    seq![112u8, 108, 97, 110, 101]
}

/// The enemy kind a kind field names; an unrecognized field falls back to
/// `planet`.
pub open spec fn kind_of_token(t: Seq<u8>) -> EnemyKind {
    if t == kw_blackhole() {
        EnemyKind::Hole
    } else if t == kw_rainbow() {
        EnemyKind::Rainbow
    } else if t == kw_energybar() {
        EnemyKind::EnergyBar
    } else if t == kw_regular() {
        EnemyKind::Basic
    } else if t == kw_plane() {
        EnemyKind::Plane
    } else {
        EnemyKind::Planet
    }
}

/// Parse a kind field.
pub fn parse_kind(t: &Vec<u8>) -> (k: EnemyKind)
    ensures
        k == kind_of_token(t@),
{
    let n: usize = t.len();
    if n == 9 && t[0] == 98 && t[1] == 108 && t[2] == 97 && t[3] == 99 && t[4] == 107 && t[5]
        == 104 && t[6] == 111 && t[7] == 108 && t[8] == 101 {
        proof {
            assert(t@ =~= kw_blackhole());
        }
        EnemyKind::Hole
    } else if n == 7 && t[0] == 114 && t[1] == 97 && t[2] == 105 && t[3] == 110 && t[4] == 98
        && t[5] == 111 && t[6] == 119 {
        proof {
            assert(t@ =~= kw_rainbow());
        }
        EnemyKind::Rainbow
    } else if n == 9 && t[0] == 101 && t[1] == 110 && t[2] == 101 && t[3] == 114 && t[4] == 103
        && t[5] == 121 && t[6] == 98 && t[7] == 97 && t[8] == 114 {
        proof {
            assert(t@ =~= kw_energybar());
        }
        EnemyKind::EnergyBar
    } else if n == 7 && t[0] == 114 && t[1] == 101 && t[2] == 103 && t[3] == 117 && t[4] == 108
        && t[5] == 97 && t[6] == 114 {
        proof {
            assert(t@ =~= kw_regular());
        }
        EnemyKind::Basic
    } else if n == 5 && t[0] == 112 && t[1] == 108 && t[2] == 97 && t[3] == 110 && t[4] == 101 {
        proof {
            assert(t@ =~= kw_plane());
        }
        EnemyKind::Plane
    } else {
        EnemyKind::Planet
    }
}

/// Why an import was rejected.
#[derive(Clone, Copy, Debug, PartialEq, Eq, Structural)]
pub enum ImportErrorKind {
    /// The header's weight field is not a decimal number in bounds.
    BadWeight,
    /// A spawn line has fewer than three fields.
    MissingField,
    /// A coordinate field is not an integer in bounds.
    BadCoordinate,
}

/// Where and why an import was rejected: the first offending file, the first
/// offending line in it (zero names the header), and the failed check.
#[derive(Clone, Copy, Debug, PartialEq, Eq, Structural)]
pub struct ImportError {
    pub file: usize,
    pub line: usize,
    pub kind: ImportErrorKind,
}

/// A spawn line carries at least three fields whose two coordinates are
/// integers in bounds.
pub open spec fn valid_data_line(line: Seq<u8>) -> bool {
    let tk = split_seq(line, 32);
    tk.len() >= 3 && valid_int(tk[0]) && valid_int(tk[1])
}

/// The spawn a valid line plans: its own coordinates, the vertical bias
/// added to `y`, and the named kind.
pub open spec fn data_event(line: Seq<u8>) -> SpawnEvent {
    let tk = split_seq(line, 32);
    SpawnEvent {
        x: Some(int_val(tk[0]) as i32),
        y: Some((int_val(tk[1]) + IMPORT_Y_BIAS) as i32),
        enemy: kind_of_token(tk[2]),
    }
}

/// Parse one spawn line.
pub fn parse_line(line: &Vec<u8>) -> (r: Result<SpawnEvent, ImportErrorKind>)
    ensures
        r is Ok <==> valid_data_line(line@),
        r matches Ok(ev) ==> ev == data_event(line@),
        r matches Err(k) ==> (k == ImportErrorKind::MissingField <==> split_seq(line@, 32).len()
            < 3),
        r matches Err(k) ==> k == ImportErrorKind::MissingField || k
            == ImportErrorKind::BadCoordinate,
{
    let tokens: Vec<Vec<u8>> = split_bytes(line, 32);
    proof {
        assert(views_of(tokens@).len() == tokens@.len());
    }
    if tokens.len() < 3 {
        return Err(ImportErrorKind::MissingField);
    }
    proof {
        assert(views_of(tokens@)[0] == tokens@[0]@);
        assert(views_of(tokens@)[1] == tokens@[1]@);
        assert(views_of(tokens@)[2] == tokens@[2]@);
    }
    let x: i64 = match parse_int(&tokens[0]) {
        Some(v) => v,
        None => {
            return Err(ImportErrorKind::BadCoordinate);
        },
    };
    let y: i64 = match parse_int(&tokens[1]) {
        Some(v) => v,
        None => {
            return Err(ImportErrorKind::BadCoordinate);
        },
    };
    let enemy: EnemyKind = parse_kind(&tokens[2]);
    Ok(SpawnEvent { x: Some(x as i32), y: Some((y + IMPORT_Y_BIAS as i64) as i32), enemy })
}

/// The replay key of a planned spawn: its vertical position, with the fixed
/// spawn height standing in where none is set.
pub open spec fn y_of(ev: SpawnEvent) -> int {
    match ev.y {
        Some(v) => v as int,
        None => (SPAWN_HEIGHT / 1_000_000) as int,
    }
}

/// The spawns are ordered by ascending vertical position.
pub open spec fn sorted_by_y(s: Seq<SpawnEvent>) -> bool {
    forall|i: int, j: int| #![trigger s[i], s[j]] 0 <= i < j < s.len() ==> y_of(s[i]) <= y_of(
        s[j],
    )
}

/// The replay key, executable.
fn y_key(ev: &SpawnEvent) -> (k: i64)
    ensures
        k as int == y_of(*ev),
{
    match ev.y {
        Some(v) => v as i64,
        None => SPAWN_HEIGHT / 1_000_000,
    }
}
/// Reorder planned spawns by ascending vertical position, keeping exactly
/// the same spawns.
pub fn sort_events_by_y(v: &mut Vec<SpawnEvent>)
    ensures
        final(v)@.to_multiset() == old(v)@.to_multiset(),
        final(v)@.len() == old(v)@.len(),
        sorted_by_y(final(v)@),
        forall|i: int| 0 <= i < final(v)@.len() ==> old(v)@.contains(#[trigger] final(v)@[i]),
{
    broadcast use vstd::seq_lib::group_to_multiset_ensures;
    broadcast use vstd::multiset::group_multiset_axioms;

    let ghost orig: Seq<SpawnEvent> = v@;
    let mut rest: Vec<SpawnEvent> = Vec::new();
    core::mem::swap(&mut rest, v);
    let mut out: Vec<SpawnEvent> = Vec::new();
    proof {
        assert(rest@ == orig);
        assert(out@.to_multiset().add(rest@.to_multiset()) =~= orig.to_multiset());
    }
    while rest.len() > 0
        invariant
            out@.to_multiset().add(rest@.to_multiset()) == orig.to_multiset(),
            out@.len() + rest@.len() == orig.len(),
            sorted_by_y(out@),
            forall|a: int, b: int| #![trigger out@[a], rest@[b]] 0 <= a < out@.len() && 0 <= b
                < rest@.len() ==> y_of(out@[a]) <= y_of(rest@[b]),
        decreases rest@.len(),
    {
        let n: usize = rest.len();
        let mut m: usize = 0;
        let mut best: i64 = y_key(&rest[0]);
        let mut i: usize = 1;
        while i < n
            invariant
                1 <= i <= n == rest@.len(),
                m < i,
                best as int == y_of(rest@[m as int]),
                forall|j: int| 0 <= j < i ==> best as int <= y_of(#[trigger] rest@[j]),
            decreases n - i,
        {
            let k: i64 = y_key(&rest[i]);
            if k < best {
                best = k;
                m = i;
            }
            i = i + 1;
        }
        let ghost rest_before = rest@;
        let ghost out_before = out@;
        let picked: SpawnEvent = rest.remove(m);
        out.push(picked);
        proof {
            rest_before.to_multiset_ensures();
            out_before.to_multiset_ensures();
            assert(picked == rest_before[m as int]);
            assert(out@ == out_before.push(picked));
            assert(rest@ == rest_before.remove(m as int));
            assert(rest@.to_multiset() =~= rest_before.to_multiset().remove(picked));
            assert(out@.to_multiset() =~= out_before.to_multiset().insert(picked));
            assert(rest_before.contains(picked)) by {
                assert(0 <= m < rest_before.len() && rest_before[m as int] == picked);
            }
            assert(rest_before.to_multiset().count(picked) > 0);
            assert(out@.to_multiset().add(rest@.to_multiset()) =~= orig.to_multiset());
            assert forall|a: int, b: int| #![trigger out@[a], rest@[b]]
                0 <= a < out@.len() && 0 <= b < rest@.len() implies y_of(out@[a]) <= y_of(
                rest@[b],
            ) by {
                if b < m {
                    assert(rest@[b] == rest_before[b]);
                } else {
                    assert(rest@[b] == rest_before[b + 1]);
                }
                if a < out@.len() - 1 {
                    assert(out@[a] == out_before[a]);
                } else {
                    assert(out@[a] == picked);
                }
            }
            assert forall|a: int, b: int| #![trigger out@[a], out@[b]] 0 <= a < b
                < out@.len() implies y_of(out@[a]) <= y_of(out@[b]) by {
                if b == out@.len() - 1 {
                    assert(out@[b] == picked);
                    assert(y_of(out_before[a]) <= y_of(rest_before[m as int]));
                }
            }
        }
    }
    proof {
        assert(rest@.to_multiset() =~= Multiset::empty());
        assert(out@.to_multiset() =~= orig.to_multiset());
        out@.to_multiset_ensures();
        orig.to_multiset_ensures();
        assert forall|i: int| 0 <= i < out@.len() implies orig.contains(
            #[trigger] out@[i],
        ) by {
            assert(out@.contains(out@[i])) by {
                assert(0 <= i < out@.len() && out@[i] == out@[i]);
            }
            assert(out@.to_multiset().count(out@[i]) > 0);
            assert(orig.to_multiset().count(out@[i]) > 0);
        }
    }
    *v = out;
}

/// The lines of a file: split at every newline, with the empty piece a
/// trailing newline leaves dropped.
pub open spec fn lines_of(f: Seq<u8>) -> Seq<Seq<u8>> {
    let ls = split_seq(f, 10);
    if ls.len() > 1 && ls.last().len() == 0 {
        ls.drop_last()
    } else {
        ls
    }
}

/// The header line's first field is a valid weight.
pub open spec fn valid_header(line: Seq<u8>) -> bool {
    valid_weight(split_seq(line, 32)[0])
}

/// The weight the header line carries, in tenths.
pub open spec fn header_tenths(line: Seq<u8>) -> int {
    weight_tenths(split_seq(line, 32)[0])
}

/// A file parses: a valid header, then valid spawn lines.
pub open spec fn file_ok(f: Seq<u8>) -> bool {
    let ls = lines_of(f);
    valid_header(ls[0]) && forall|j: int| 1 <= j < ls.len() ==> valid_data_line(#[trigger] ls[j])
}

/// The weight a valid file gives its structure, in tenths.
pub open spec fn file_weight(f: Seq<u8>) -> int {
    header_tenths(lines_of(f)[0])
}

/// The spawns a valid file plans, one per spawn line, in file order.
pub open spec fn file_events(f: Seq<u8>) -> Seq<SpawnEvent> {
    Seq::new((lines_of(f).len() - 1) as nat, |j: int| data_event(lines_of(f)[j + 1]))
}

/// The spawn a valid line plans stays within the arena.
proof fn lemma_data_event_wf(line: Seq<u8>)
    requires
        valid_data_line(line),
    ensures
        crate::map_layout::event_wf(data_event(line)),
{
    let tk = split_seq(line, 32);
    if tk[0].len() >= 1 && tk[0][0] == 45 {
        lemma_digits_val_nonneg(tk[0].skip(1));
    } else {
        lemma_digits_val_nonneg(tk[0]);
    }
    if tk[1].len() >= 1 && tk[1][0] == 45 {
        lemma_digits_val_nonneg(tk[1].skip(1));
    } else {
        lemma_digits_val_nonneg(tk[1]);
    }
}

/// Parse one structure file: the header's weight, then one spawn per line,
/// replay-ordered by ascending vertical position. An invalid file is
/// rejected with the first offending line (zero names the header) and the
/// failed check.
pub fn parse_file(file: &Vec<u8>) -> (r: Result<Structure, (usize, ImportErrorKind)>)
    ensures
        r is Ok <==> file_ok(file@),
        r matches Ok(st) ==> st.spawn_chance as int == file_weight(file@) && st.structure@
            .to_multiset() == file_events(file@).to_multiset() && sorted_by_y(st.structure@)
            && crate::map_layout::structure_wf(st),
        r matches Err(e) ==> !file_ok(file@) && (e.0 == 0 ==> !valid_header(lines_of(file@)[0])
            && e.1 == ImportErrorKind::BadWeight) && (e.0 >= 1 ==> valid_header(
            lines_of(file@)[0],
        ) && e.0 < lines_of(file@).len() && !valid_data_line(lines_of(file@)[e.0 as int])
            && forall|j: int| 1 <= j < e.0 ==> valid_data_line(#[trigger] lines_of(file@)[j])),
{
    let mut lines_vec: Vec<Vec<u8>> = split_bytes(file, 10);
    let ghost raw = split_seq(file@, 10);
    if lines_vec.len() > 1 && lines_vec[lines_vec.len() - 1].len() == 0 {
        proof {
            assert(views_of(lines_vec@)[lines_vec@.len() - 1] == lines_vec@[lines_vec@.len()
                - 1]@);
        }
        lines_vec.pop();
        proof {
            assert(views_of(lines_vec@) =~= raw.drop_last());
            assert(views_of(lines_vec@) == lines_of(file@));
        }
    } else {
        proof {
            if lines_vec@.len() > 1 {
                assert(views_of(lines_vec@)[lines_vec@.len() - 1] == lines_vec@[lines_vec@.len()
                    - 1]@);
            }
            assert(views_of(lines_vec@) == lines_of(file@));
        }
    }
    let ghost ls = lines_of(file@);
    let n: usize = lines_vec.len();
    proof {
        assert(n >= 1);
        assert(lines_vec@[0]@ == ls[0]);
    }
    let header_tokens: Vec<Vec<u8>> = split_bytes(&lines_vec[0], 32);
    proof {
        assert(views_of(header_tokens@)[0] == header_tokens@[0]@);
    }
    let weight: u64 = match parse_weight(&header_tokens[0]) {
        Some(w) => w,
        None => {
            return Err((0, ImportErrorKind::BadWeight));
        },
    };
    let mut events: Vec<SpawnEvent> = Vec::new();
    let mut j: usize = 1;
    while j < n
        invariant
            1 <= j <= n == ls.len(),
            ls == lines_of(file@),
            views_of(lines_vec@) == ls,
            lines_vec@.len() == n,
            valid_header(lines_of(file@)[0]),
            weight as int == header_tenths(lines_of(file@)[0]),
            forall|m: int| 1 <= m < j ==> valid_data_line(#[trigger] ls[m]),
            events@.len() == j - 1,
            forall|m: int| 0 <= m < j - 1 ==> #[trigger] events@[m] == data_event(ls[m + 1]),
            forall|m: int| 0 <= m < j - 1 ==> crate::map_layout::event_wf(
                #[trigger] events@[m],
            ),
        decreases n - j,
    {
        proof {
            assert(lines_vec@[j as int]@ == ls[j as int]);
        }
        match parse_line(&lines_vec[j]) {
            Ok(ev) => {
                proof {
                    lemma_data_event_wf(ls[j as int]);
                }
                events.push(ev);
            },
            Err(k) => {
                proof {
                    assert(lines_of(file@)[j as int] == ls[j as int]);
                    assert(lines_of(file@)[0] == ls[0]);
                    assert(!valid_data_line(lines_of(file@)[j as int]));
                    assert forall|m: int| 1 <= m < j implies valid_data_line(
                        #[trigger] lines_of(file@)[m],
                    ) by {
                        assert(lines_of(file@)[m] == ls[m]);
                    }
                    assert(!file_ok(file@)) by {
                        if file_ok(file@) {
                            assert(valid_data_line(lines_of(file@)[j as int]));
                        }
                    }
                }
                return Err((j, k));
            },
        }
        j = j + 1;
    }
    proof {
        assert(events@ =~= file_events(file@));
    }
    let ghost before_sort = events@;
    sort_events_by_y(&mut events);
    proof {
        assert forall|i: int| 0 <= i < events@.len() implies crate::map_layout::event_wf(
            #[trigger] events@[i],
        ) by {
            assert(before_sort.contains(events@[i]));
            let w = choose|k: int| 0 <= k < before_sort.len() && before_sort[k] == events@[i];
            assert(crate::map_layout::event_wf(before_sort[w]));
        }
    }
    Ok(Structure { spawn_chance: weight, structure: events })
}

/// Parse every structure file of an import, in order. The import succeeds
/// exactly when every file parses; otherwise the first offending file, line
/// and check are reported.
pub fn import_structures(files: &Vec<Vec<u8>>) -> (r: Result<Vec<Structure>, ImportError>)
    ensures
        r is Ok <==> (forall|k: int| 0 <= k < files@.len() ==> file_ok(#[trigger] files@[k]@)),
        r matches Ok(out) ==> out@.len() == files@.len() && forall|k: int|
            0 <= k < files@.len() ==> (#[trigger] out@[k]).spawn_chance as int == file_weight(
            files@[k]@,
        ) && out@[k].structure@.to_multiset() == file_events(files@[k]@).to_multiset()
            && sorted_by_y(out@[k].structure@) && crate::map_layout::structure_wf(out@[k]),
        r matches Err(e) ==> e.file < files@.len() && !file_ok(files@[e.file as int]@) && forall|
            k: int,
        | 0 <= k < e.file ==> file_ok(#[trigger] files@[k]@),
{
    let mut out: Vec<Structure> = Vec::new();
    let n: usize = files.len();
    let mut i: usize = 0;
    while i < n
        invariant
            i <= n == files@.len(),
            out@.len() == i,
            forall|k: int| 0 <= k < i ==> file_ok(#[trigger] files@[k]@),
            forall|k: int| 0 <= k < i ==> (#[trigger] out@[k]).spawn_chance as int
                == file_weight(files@[k]@) && out@[k].structure@.to_multiset() == file_events(
                files@[k]@,
            ).to_multiset() && sorted_by_y(out@[k].structure@)
                && crate::map_layout::structure_wf(out@[k]),
        decreases n - i,
    {
        match parse_file(&files[i]) {
            Ok(st) => {
                out.push(st);
            },
            Err((line, kind)) => {
                return Err(ImportError { file: i, line, kind });
            },
        }
        i = i + 1;
    }
    Ok(out)
}

} // verus!
