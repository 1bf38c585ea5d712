//! Mapping command-line file arguments onto dense, position-indexed track slots.
use vstd::prelude::*;
use crate::error::Error;
use crate::text::{bounded_decimal, decimal_value, parse_decimal, all_digits};

verus! {

/// Index of the last `:` in `a`, or -1 when there is none.
pub open spec fn last_colon(a: Seq<char>) -> int
    decreases a.len(),
{
    if a.len() == 0 {
        -1
    } else if a.last() == ':' {
        a.len() - 1
    } else {
        last_colon(a.drop_last())
    }
}

/// `a` holds no `:`, so it names a file without a position.
pub open spec fn is_bare(a: Seq<char>) -> bool {
    forall|j: int| 0 <= j < a.len() ==> a[j] != ':'
}

/// A 1-based track position written in decimal.
pub open spec fn parse_position(s: Seq<char>) -> Option<nat> {
    match bounded_decimal(s, usize::MAX as nat) {
        Some(p) => if p >= 1 {
            Some(p)
        } else {
            None
        },
        None => None,
    }
}

/// `slots` grown with absent entries up to `len` entries.
pub open spec fn pad_slots(slots: Seq<Option<Seq<char>>>, len: nat) -> Seq<Option<Seq<char>>> {
    if slots.len() < len {
        slots + Seq::new((len - slots.len()) as nat, |_i: int| None::<Seq<char>>)
    } else {
        slots
    }
}

/// `path` put in slot `idx`: a slot past the end is reached by padding with
/// absent entries; an empty slot is filled; a slot that already holds a path
/// is a conflict.
pub open spec fn place(slots: Seq<Option<Seq<char>>>, idx: nat, path: Seq<char>) -> Option<
    Seq<Option<Seq<char>>>,
> {
    if idx < slots.len() {
        if slots[idx as int] is None {
            Some(slots.update(idx as int, Some(path)))
        } else {
            None
        }
    } else {
        Some(pad_slots(slots, idx).push(Some(path)))
    }
}

/// One argument applied to the slots built so far: a bare path goes after the
/// last slot, a `path:position` goes to slot `position - 1`.
pub open spec fn arg_step(slots: Seq<Option<Seq<char>>>, a: Seq<char>) -> Option<
    Seq<Option<Seq<char>>>,
> {
    let k = last_colon(a);
    if k < 0 {
        Some(slots.push(Some(a)))
    } else {
        match parse_position(a.subrange(k + 1, a.len() as int)) {
            Some(p) => place(slots, (p - 1) as nat, a.subrange(0, k)),
            None => None,
        }
    }
}

/// The slots that a sequence of arguments describes, scanned left to right;
/// `None` when some position is malformed or names a slot already taken.
pub open spec fn track_slots(args: Seq<Seq<char>>) -> Option<Seq<Option<Seq<char>>>>
    decreases args.len(),
{
    if args.len() == 0 {
        Some(Seq::empty())
    } else {
        match track_slots(args.drop_last()) {
            Some(s) => arg_step(s, args.last()),
            None => None,
        }
    }
}

pub open spec fn strings_view(s: Seq<String>) -> Seq<Seq<char>> {
    s.map_values(|x: String| x@)
}

pub open spec fn slots_view(s: Seq<Option<String>>) -> Seq<Option<Seq<char>>> {
    s.map_values(
        |o: Option<String>|
            match o {
                Some(x) => Some(x@),
                None => None,
            },
    )
}

fn find_last_colon(s: &str) -> (r: Option<usize>)
    ensures
        match r {
            Some(k) => last_colon(s@) == k as int && k < s@.len(),
            None => last_colon(s@) == -1,
        },
{
    let n = s.unicode_len();
    let mut k: usize = n;
    assert(s@.subrange(0, n as int) =~= s@);
    while k > 0
        invariant
            n == s@.len(),
            k <= n,
            last_colon(s@) == last_colon(s@.subrange(0, k as int)),
        decreases k,
    {
        if s.get_char(k - 1) == ':' {
            return Some(k - 1);
        }
        assert(s@.subrange(0, k as int).drop_last() =~= s@.subrange(0, k - 1));
        k = k - 1;
    }
    None
}

/// Turns file arguments, each a bare path or `path:position`, into slots where
/// index `i` holds the file of track number `i + 1` and gaps stay absent.
/// A malformed position, or one whose slot is already taken, is a parse error.
pub fn audio_files_parser(files: Vec<String>) -> (r: Result<Vec<Option<String>>, Error>)
    ensures
        match r {
            Ok(v) => track_slots(strings_view(files@)) == Some(slots_view(v@)),
            Err(e) => track_slots(strings_view(files@)) is None && e == Error::Parse,
        },
{
    let ghost args = strings_view(files@);
    let mut result: Vec<Option<String>> = Vec::new();
    let mut i: usize = 0;
    assert(args.take(0) =~= Seq::<Seq<char>>::empty());
    assert(slots_view(result@) =~= Seq::<Option<Seq<char>>>::empty());
    while i < files.len()
        invariant
            args == strings_view(files@),
            i <= files.len(),
            track_slots(args.take(i as int)) == Some(slots_view(result@)),
        decreases files.len() - i,
    {
        let file = &files[i];
        let ghost a = file@;
        let ghost before = slots_view(result@);
        assert(args.take(i + 1).drop_last() =~= args.take(i as int));
        assert(args.take(i + 1).last() == a);
        match find_last_colon(file.as_str()) {
            None => {
                result.push(Some(file.clone()));
                assert(slots_view(result@) =~= before.push(Some(a)));
            },
            Some(k) => {
                let n = file.as_str().unicode_len();
                let suffix = file.as_str().substring_char(k + 1, n);
                let parsed = parse_decimal(suffix, usize::MAX);
                match parsed {
                    Some(p) if p >= 1 => {
                        let idx = p - 1;
                        let path = String::from_str(file.as_str().substring_char(0, k));
                        if idx < result.len() {
                            if result[idx].is_some() {
                                assert(place(before, idx as nat, a.subrange(0, k as int)) is None);
                                proof {
                                    lemma_failure_sticks(
                                        args.take(i + 1),
                                        args.subrange(i + 1, args.len() as int),
                                    );
                                    assert(args.take(i + 1) + args.subrange(i + 1, args.len() as int)
                                        =~= args);
                                }
                                return Err(Error::Parse);
                            }
                            result.set(idx, Some(path));
                            assert(slots_view(result@) =~= before.update(
                                idx as int,
                                Some(a.subrange(0, k as int)),
                            ));
                        } else {
                            let ghost base = result@.len();
                            while result.len() < idx
                                invariant
                                    base == before.len(),
                                    base <= result.len(),
                                    result.len() <= idx,
                                    slots_view(result@) == before + Seq::new(
                                        (result.len() - base) as nat,
                                        |_i: int| None::<Seq<char>>,
                                    ),
                                decreases idx - result.len(),
                            {
                                let ghost prev = slots_view(result@);
                                result.push(None);
                                assert(slots_view(result@) =~= prev.push(None));
                                assert(slots_view(result@) =~= before + Seq::new(
                                    (result.len() - base) as nat,
                                    |_i: int| None::<Seq<char>>,
                                ));
                            }
                            assert(slots_view(result@) =~= pad_slots(before, idx as nat));
                            let ghost padded = slots_view(result@);
                            result.push(Some(path));
                            assert(slots_view(result@) =~= padded.push(Some(a.subrange(0, k as int))));
                        }
                    },
                    _ => {
                        assert(parse_position(a.subrange(k + 1, a.len() as int)) is None);
                        proof {
                            lemma_failure_sticks(args.take(i + 1), args.subrange(i + 1, args.len() as int));
                            assert(args.take(i + 1) + args.subrange(i + 1, args.len() as int) =~= args);
                        }
                        return Err(Error::Parse);
                    },
                }
            },
        }
        i = i + 1;
    }
    assert(args.take(files.len() as int) =~= args);
    Ok(result)
}

/// Once a prefix of the arguments fails, the whole sequence fails.
proof fn lemma_failure_sticks(a: Seq<Seq<char>>, b: Seq<Seq<char>>)
    requires
        track_slots(a) is None,
    ensures
        track_slots(a + b) is None,
    decreases b.len(),
{
    if b.len() == 0 {
        assert(a + b =~= a);
    } else {
        assert((a + b).drop_last() =~= a + b.drop_last());
        lemma_failure_sticks(a, b.drop_last());
    }
}

proof fn lemma_bare_has_no_colon(a: Seq<char>)
    requires
        is_bare(a),
    ensures
        last_colon(a) == -1,
    decreases a.len(),
{
    if a.len() > 0 {
        assert(is_bare(a.drop_last()));
        lemma_bare_has_no_colon(a.drop_last());
    }
}

proof fn lemma_digits_are_bare(s: Seq<char>)
    requires
        all_digits(s),
    ensures
        is_bare(s),
{
    assert forall|j: int| 0 <= j < s.len() implies s[j] != ':' by {
        assert(crate::text::is_digit(s[j]));
    }
}

proof fn lemma_colon_then_bare(x: Seq<char>, y: Seq<char>)
    requires
        is_bare(y),
    ensures
        last_colon(x + seq![':'] + y) == x.len(),
    decreases y.len(),
{
    let a = x + seq![':'] + y;
    if y.len() > 0 {
        assert(a.drop_last() =~= x + seq![':'] + y.drop_last());
        assert(a.last() == y.last());
        assert(is_bare(y.drop_last()));
        lemma_colon_then_bare(x, y.drop_last());
    } else {
        assert(a.last() == ':');
    }
}

/// `t` has at least the slots of `s`, and every filled slot of `s` holds the
/// same path in `t`.
pub open spec fn keeps(s: Seq<Option<Seq<char>>>, t: Seq<Option<Seq<char>>>) -> bool {
    &&& s.len() <= t.len()
    &&& forall|i: int| 0 <= i < s.len() && (#[trigger] s[i]) is Some ==> t[i] == s[i]
}

proof fn lemma_step_keeps(slots: Seq<Option<Seq<char>>>, a: Seq<char>)
    requires
        arg_step(slots, a) is Some,
    ensures
        keeps(slots, arg_step(slots, a).unwrap()),
{
    let out = arg_step(slots, a).unwrap();
    assert forall|i: int| 0 <= i < slots.len() && (#[trigger] slots[i]) is Some implies out[i]
        == slots[i] by {
    }
}

proof fn lemma_kept(a: Seq<Seq<char>>, b: Seq<Seq<char>>)
    requires
        track_slots(a + b) is Some,
    ensures
        track_slots(a) is Some,
        keeps(track_slots(a).unwrap(), track_slots(a + b).unwrap()),
    decreases b.len(),
{
    if b.len() == 0 {
        assert(a + b =~= a);
    } else {
        let ab = a + b;
        assert(ab.drop_last() =~= a + b.drop_last());
        lemma_kept(a, b.drop_last());
        let mid = track_slots(a + b.drop_last()).unwrap();
        lemma_step_keeps(mid, ab.last());
        let s = track_slots(a).unwrap();
        let out = track_slots(ab).unwrap();
        assert forall|i: int| 0 <= i < s.len() && (#[trigger] s[i]) is Some implies out[i]
            == s[i] by {
            assert(mid[i] == s[i]);
        }
    }
}

/// Arguments that are all bare paths come out as slots in their own order,
/// every one present and none in between.
pub proof fn lemma_bare_paths_in_order(args: Seq<Seq<char>>)
    requires
        forall|i: int| 0 <= i < args.len() ==> is_bare(#[trigger] args[i]),
    ensures
        track_slots(args) == Some(args.map_values(|a: Seq<char>| Some(a))),
    decreases args.len(),
{
    if args.len() == 0 {
        assert(args.map_values(|a: Seq<char>| Some(a)) =~= Seq::<Option<Seq<char>>>::empty());
    } else {
        let init = args.drop_last();
        assert forall|i: int| 0 <= i < init.len() implies is_bare(#[trigger] init[i]) by {
            assert(init[i] == args[i]);
        }
        lemma_bare_paths_in_order(init);
        assert(is_bare(args[args.len() - 1]));
        lemma_bare_has_no_colon(args.last());
        assert(args.map_values(|a: Seq<char>| Some(a)) =~= init.map_values(
            |a: Seq<char>| Some(a),
        ).push(Some(args.last())));
    }
}

proof fn lemma_split_positioned(path: Seq<char>, digits: Seq<char>)
    requires
        parse_position(digits) is Some,
    ensures
        ({
            let arg = path + seq![':'] + digits;
            &&& last_colon(arg) == path.len()
            &&& arg.subrange(path.len() + 1int, arg.len() as int) == digits
            &&& arg.subrange(0, path.len() as int) == path
        }),
{
    let arg = path + seq![':'] + digits;
    lemma_digits_are_bare(digits);
    lemma_colon_then_bare(path, digits);
    assert(arg.subrange(path.len() + 1int, arg.len() as int) =~= digits);
    assert(arg.subrange(0, path.len() as int) =~= path);
}

/// An argument `path:position` puts `path` in slot `position - 1`, wherever it
/// stands in the list, whenever the list is accepted (no other argument
/// takes that slot).
pub proof fn lemma_positioned_slot(
    prefix: Seq<Seq<char>>,
    path: Seq<char>,
    digits: Seq<char>,
    suffix: Seq<Seq<char>>,
)
    requires
        parse_position(digits) is Some,
        track_slots(prefix.push(path + seq![':'] + digits) + suffix) is Some,
    ensures
        track_slots(prefix.push(path + seq![':'] + digits) + suffix).unwrap().len()
            >= parse_position(digits).unwrap(),
        track_slots(prefix.push(path + seq![':'] + digits) + suffix).unwrap()[parse_position(
            digits,
        ).unwrap() - 1] == Some(path),
{
    let arg = path + seq![':'] + digits;
    let mid = prefix.push(arg);
    let p = parse_position(digits).unwrap();
    lemma_split_positioned(path, digits);
    assert(mid.drop_last() =~= prefix);
    lemma_kept(mid, suffix);
    let out_mid = track_slots(mid).unwrap();
    assert(out_mid[p - 1] == Some(path));
    assert(out_mid[p - 1] is Some);
}

/// The argument list whose `j`-th entry is `paths[j]:positions[j]`.
pub open spec fn positioned_args(paths: Seq<Seq<char>>, positions: Seq<Seq<char>>) -> Seq<
    Seq<char>,
> {
    Seq::new(paths.len(), |j: int| paths[j] + seq![':'] + positions[j])
}

/// The slot that the `j`-th position names.
pub open spec fn slot_of(positions: Seq<Seq<char>>, j: int) -> int {
    parse_position(positions[j]).unwrap() - 1
}

/// Arguments that all carry a valid position, no two the same, give slots
/// fixed by the positions alone, whatever their order: slot `position - 1`
/// holds its path, every other slot is absent, and there are as many slots
/// as the highest position.
pub proof fn lemma_positions_fix_slots(paths: Seq<Seq<char>>, positions: Seq<Seq<char>>)
    requires
        paths.len() == positions.len(),
        forall|j: int| 0 <= j < positions.len() ==> parse_position(#[trigger] positions[j]) is Some,
        forall|j: int, l: int|
            0 <= j < l < positions.len() ==> slot_of(positions, j) != slot_of(positions, l),
    ensures
        track_slots(positioned_args(paths, positions)) is Some,
        ({
            let v = track_slots(positioned_args(paths, positions)).unwrap();
            &&& forall|j: int|
                0 <= j < paths.len() ==> slot_of(positions, j) < v.len() && v[slot_of(positions, j)]
                    == Some(paths[j])
            &&& forall|i: int|
                0 <= i < v.len() && (#[trigger] v[i]) is Some ==> exists|j: int|
                    0 <= j < paths.len() && slot_of(positions, j) == i
            &&& v.len() == 0 || exists|j: int|
                0 <= j < paths.len() && slot_of(positions, j) == v.len() - 1
        }),
    decreases paths.len(),
{
    let args = positioned_args(paths, positions);
    let n = paths.len();
    if n == 0 {
        assert(args =~= Seq::<Seq<char>>::empty());
    } else {
        let ip = paths.drop_last();
        let iq = positions.drop_last();
        assert forall|j: int| 0 <= j < iq.len() implies parse_position(#[trigger] iq[j]) is Some by {
            assert(iq[j] == positions[j]);
        }
        assert forall|j: int, l: int| 0 <= j < l < iq.len() implies slot_of(iq, j) != slot_of(
            iq,
            l,
        ) by {
            assert(slot_of(iq, j) == slot_of(positions, j));
            assert(slot_of(iq, l) == slot_of(positions, l));
        }
        lemma_positions_fix_slots(ip, iq);
        assert(args.drop_last() =~= positioned_args(ip, iq));
        let v0 = track_slots(positioned_args(ip, iq)).unwrap();
        let last = n - 1;
        assert(parse_position(positions[last]) is Some);
        lemma_split_positioned(paths[last], positions[last]);
        assert(args.last() == paths[last] + seq![':'] + positions[last]);
        let idx = slot_of(positions, last);
        assert forall|j: int| 0 <= j < ip.len() implies slot_of(iq, j) == slot_of(positions, j)
            && ip[j] == paths[j] by {}
        if idx < v0.len() {
            assert(v0[idx] is None) by {
                if v0[idx] is Some {
                    let j = choose|j: int| 0 <= j < ip.len() && slot_of(iq, j) == idx;
                    assert(slot_of(positions, j) != slot_of(positions, last));
                }
            }
        }
        let v = track_slots(args).unwrap();
        assert forall|j: int| 0 <= j < paths.len() implies slot_of(positions, j) < v.len()
            && v[slot_of(positions, j)] == Some(paths[j]) by {
            if j < last {
                assert(slot_of(iq, j) == slot_of(positions, j));
                assert(v0[slot_of(iq, j)] == Some(ip[j]));
            }
        }
        assert forall|i: int| 0 <= i < v.len() && (#[trigger] v[i]) is Some implies exists|j: int|
            0 <= j < paths.len() && slot_of(positions, j) == i by {
            if i != idx {
                assert(i < v0.len() && v0[i] is Some);
                let j = choose|j: int| 0 <= j < ip.len() && slot_of(iq, j) == i;
                assert(slot_of(positions, j) == i);
            }
        }
        if idx < v0.len() {
            if v0.len() > 0 {
                let j = choose|j: int| 0 <= j < ip.len() && slot_of(iq, j) == v0.len() - 1;
                assert(slot_of(positions, j) == v.len() - 1);
            }
        }
    }
}

/// A position of zero, or one that is not a decimal number, makes the whole
/// argument list fail.
pub proof fn lemma_bad_position_fails(
    prefix: Seq<Seq<char>>,
    path: Seq<char>,
    position: Seq<char>,
    suffix: Seq<Seq<char>>,
)
    requires
        is_bare(position),
        decimal_value(position) is None || decimal_value(position) == Some(0nat),
    ensures
        track_slots(prefix.push(path + seq![':'] + position) + suffix) is None,
{
    let arg = path + seq![':'] + position;
    let mid = prefix.push(arg);
    lemma_colon_then_bare(path, position);
    assert(arg.subrange(path.len() + 1int, arg.len() as int) =~= position);
    assert(mid.drop_last() =~= prefix);
    assert(track_slots(mid) is None);
    lemma_failure_sticks(mid, suffix);
}

} // verus!
