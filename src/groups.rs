//! The group planner: parses a group specification such as `"a,b:3,c:0"`
//! into named groups with node counts, and enumerates the (group, index)
//! slots that drive key generation.
use vstd::prelude::*;
use crate::error::KeygenError;

verus! {

/// A named group of nodes.
pub struct GroupSpec {
    pub name: String,
    pub count: usize,
}

/// One node position: the `index`-th node of `group`.
pub struct Slot {
    pub group: String,
    pub index: usize,
}

/// `s` cut at every `sep`; always at least one (possibly empty) piece.
pub open spec fn split(s: Seq<char>, sep: char) -> Seq<Seq<char>>
    decreases s.len(),
{
    if s.len() == 0 {
        seq![Seq::empty()]
    } else {
        let prev = split(s.drop_last(), sep);
        if s.last() == sep {
            prev.push(Seq::empty())
        } else {
            prev.update(prev.len() - 1, prev.last().push(s.last()))
        }
    }
}

pub open spec fn is_digit(c: char) -> bool {
    '0' <= c && c <= '9'
}

pub open spec fn digit_value(c: char) -> nat {
    ((c as u32) - ('0' as u32)) as nat
}

/// The value of a string of decimal digits.
pub open spec fn decimal_value(ds: Seq<char>) -> nat
    decreases ds.len(),
{
    if ds.len() == 0 {
        0
    } else {
        decimal_value(ds.drop_last()) * 10 + digit_value(ds.last())
    }
}

/// The digits of a count, after an optional leading `+`.
pub open spec fn count_digits(t: Seq<char>) -> Seq<char> {
    if t.len() > 0 && t[0] == '+' {
        t.drop_first()
    } else {
        t
    }
}

/// The count that `t` denotes as an unsigned integer of `usize`, if any.
pub open spec fn count_value(t: Seq<char>) -> Option<nat> {
    let ds = count_digits(t);
    if ds.len() > 0 && (forall|i: int| 0 <= i < ds.len() ==> is_digit(#[trigger] ds[i]))
        && decimal_value(ds) <= usize::MAX {
        Some(decimal_value(ds))
    } else {
        None
    }
}

/// The group that one token denotes: `name` takes `default`, `name:count`
/// takes its own count (the text between the first and any second `:`).
pub open spec fn token_group(t: Seq<char>, default: nat) -> Option<(Seq<char>, nat)> {
    if t.contains(':') {
        let parts = split(t, ':');
        match count_value(parts[1]) {
            Some(n) => Some((parts[0], n)),
            None => None,
        }
    } else {
        Some((t, default))
    }
}

pub open spec fn token_groups(ts: Seq<Seq<char>>, default: nat) -> Option<Seq<(Seq<char>, nat)>>
    decreases ts.len(),
{
    if ts.len() == 0 {
        Some(Seq::empty())
    } else {
        match (token_groups(ts.drop_last(), default), token_group(ts.last(), default)) {
            (Some(gs), Some(g)) => Some(gs.push(g)),
            _ => None,
        }
    }
}

/// The groups that a specification denotes, in the order of its tokens, or
/// `None` where some count is malformed.
pub open spec fn parse_spec(text: Seq<char>, default: nat) -> Option<Seq<(Seq<char>, nat)>> {
    token_groups(split(text, ','), default)
}

pub open spec fn group_views(gs: Seq<GroupSpec>) -> Seq<(Seq<char>, nat)> {
    gs.map_values(|g: GroupSpec| (g.name@, g.count as nat))
}

pub open spec fn slot_views(ss: Seq<Slot>) -> Seq<(Seq<char>, nat)> {
    ss.map_values(|s: Slot| (s.group@, s.index as nat))
}

pub open spec fn string_views(ss: Seq<String>) -> Seq<Seq<char>> {
    ss.map_values(|s: String| s@)
}

/// The slots of one group: indices `0..count` in order.
pub open spec fn group_block(g: (Seq<char>, nat)) -> Seq<(Seq<char>, nat)> {
    Seq::new(g.1, |j: int| (g.0, j as nat))
}

/// The slots of all groups: group order first, then index order.
pub open spec fn slots(gs: Seq<(Seq<char>, nat)>) -> Seq<(Seq<char>, nat)>
    decreases gs.len(),
{
    if gs.len() == 0 {
        Seq::empty()
    } else {
        slots(gs.drop_last()) + group_block(gs.last())
    }
}

/// The sum of the groups' counts.
pub open spec fn total_count(gs: Seq<(Seq<char>, nat)>) -> nat
    decreases gs.len(),
{
    if gs.len() == 0 {
        0
    } else {
        total_count(gs.drop_last()) + gs.last().1
    }
}

proof fn lemma_split_len(s: Seq<char>, sep: char)
    ensures
        split(s, sep).len() >= 1,
        split(s, sep).len() >= 2 <==> s.contains(sep),
    decreases s.len(),
{
    if s.len() > 0 {
        let init = s.drop_last();
        lemma_split_len(init, sep);
        if s.last() == sep {
            assert(s[s.len() - 1] == sep);
        } else if init.contains(sep) {
            let k = choose|k: int| 0 <= k < init.len() && init[k] == sep;
            assert(s[k] == sep);
        } else if s.contains(sep) {
            let k = choose|k: int| 0 <= k < s.len() && s[k] == sep;
            assert(init[k] == sep);
        }
    }
}

/// `text` cut at every `sep`.
pub fn split_text(text: &str, sep: char) -> (r: Vec<String>)
    ensures
        string_views(r@) == split(text@, sep),
{
    let n = text.unicode_len();
    let mut pieces: Vec<String> = Vec::new();
    let mut start: usize = 0;
    let mut i: usize = 0;
    proof {
        assert(text@.take(0) =~= Seq::<char>::empty());
        assert(string_views(pieces@).push(text@.subrange(0, 0)) =~= seq![Seq::<char>::empty()]);
    }
    while i < n
        invariant
            n == text@.len(),
            start <= i <= n,
            split(text@.take(i as int), sep) == string_views(pieces@).push(
                text@.subrange(start as int, i as int),
            ),
        decreases n - i,
    {
        let c = text.get_char(i);
        proof {
            assert(text@.take(i + 1).drop_last() =~= text@.take(i as int));
            assert(text@.take(i + 1).last() == c);
        }
        if c == sep {
            let piece = text.substring_char(start, i).to_owned();
            let ghost before = pieces@;
            pieces.push(piece);
            start = i + 1;
            proof {
                assert(string_views(pieces@) =~= string_views(before).push(piece@));
                assert(text@.subrange(start as int, i + 1) =~= Seq::<char>::empty());
            }
        } else {
            proof {
                assert(text@.subrange(start as int, i + 1) =~= text@.subrange(
                    start as int,
                    i as int,
                ).push(c));
            }
        }
        i = i + 1;
    }
    let last = text.substring_char(start, n).to_owned();
    let ghost before = pieces@;
    pieces.push(last);
    proof {
        assert(text@.take(n as int) =~= text@);
        assert(string_views(pieces@) =~= string_views(before).push(last@));
    }
    pieces
}

proof fn lemma_decimal_prefix_le(ds: Seq<char>, j: int)
    requires
        0 <= j <= ds.len(),
    ensures
        decimal_value(ds.take(j)) <= decimal_value(ds),
    decreases ds.len(),
{
    if j == ds.len() {
        assert(ds.take(j) =~= ds);
    } else {
        lemma_decimal_prefix_le(ds.drop_last(), j);
        assert(ds.drop_last().take(j) =~= ds.take(j));
    }
}

/// Reads a count: an optional `+` and then decimal digits, whose value
/// fits in `usize`.
pub fn parse_count(t: &str) -> (r: Option<usize>)
    ensures
        match count_value(t@) {
            Some(n) => r == Some(n as usize),
            None => r is None,
        },
{
    let n = t.unicode_len();
    let mut i: usize = 0;
    if n > 0 && t.get_char(0) == '+' {
        i = 1;
    }
    let ghost ds = count_digits(t@);
    proof {
        assert(ds =~= t@.subrange(i as int, n as int));
    }
    if i >= n {
        assert(ds.len() == 0);
        return None;
    }
    let start = i;
    let mut v: usize = 0;
    proof {
        assert(t@.subrange(start as int, start as int) =~= Seq::<char>::empty());
    }
    while i < n
        invariant
            n == t@.len(),
            start <= i <= n,
            ds == t@.subrange(start as int, n as int),
            ds == count_digits(t@),
            forall|k: int| start <= k < i ==> is_digit(#[trigger] t@[k]),
            v as nat == decimal_value(t@.subrange(start as int, i as int)),
        decreases n - i,
    {
        let c = t.get_char(i);
        proof {
            assert(ds[i - start] == c);
            assert(t@.subrange(start as int, i + 1).drop_last() =~= t@.subrange(
                start as int,
                i as int,
            ));
            assert(t@.subrange(start as int, i + 1) =~= ds.take(i + 1 - start));
        }
        if !('0' <= c && c <= '9') {
            proof {
                assert(!is_digit(ds[i - start]));
                assert(ds == count_digits(t@));
                assert(count_value(t@) is None);
            }
            return None;
        }
        let d = ((c as u32) - ('0' as u32)) as usize;
        let next = match v.checked_mul(10) {
            Some(m) => m.checked_add(d),
            None => None,
        };
        match next {
            Some(w) => {
                v = w;
            },
            None => {
                proof {
                    let pre = t@.subrange(start as int, i + 1);
                    assert(pre.last() == c);
                    assert(decimal_value(pre) == v * 10 + d);
                    assert(decimal_value(pre) > usize::MAX);
                    lemma_decimal_prefix_le(ds, i + 1 - start);
                    assert(decimal_value(ds) > usize::MAX);
                    assert(count_value(t@) is None);
                }
                return None;
            },
        }
        i = i + 1;
    }
    proof {
        assert(t@.subrange(start as int, n as int) =~= ds);
        assert forall|k: int| 0 <= k < ds.len() implies is_digit(#[trigger] ds[k]) by {
            assert(ds[k] == t@[start + k]);
        }
    }
    Some(v)
}

proof fn lemma_token_groups_none(ts: Seq<Seq<char>>, j: int, default: nat)
    requires
        0 <= j <= ts.len(),
        token_groups(ts.take(j), default) is None,
    ensures
        token_groups(ts, default) is None,
    decreases ts.len(),
{
    if j == ts.len() {
        assert(ts.take(j) =~= ts);
    } else {
        assert(ts.drop_last().take(j) =~= ts.take(j));
        lemma_token_groups_none(ts.drop_last(), j, default);
    }
}

/// Parses a group specification: tokens separated by `,`, each `name`
/// (with `default` nodes) or `name:count`.
pub fn parse_groups(text: &str, default: usize) -> (r: Result<Vec<GroupSpec>, KeygenError>)
    ensures
        match parse_spec(text@, default as nat) {
            Some(gs) => r matches Ok(v) && group_views(v@) == gs,
            None => r == Err::<Vec<GroupSpec>, KeygenError>(KeygenError::InvalidGroupCount),
        },
{
    let tokens = split_text(text, ',');
    let ghost ts = split(text@, ',');
    let mut out: Vec<GroupSpec> = Vec::new();
    let mut k: usize = 0;
    proof {
        assert(ts.take(0) =~= Seq::<Seq<char>>::empty());
        assert(group_views(out@) =~= Seq::<(Seq<char>, nat)>::empty());
    }
    while k < tokens.len()
        invariant
            k <= tokens@.len(),
            string_views(tokens@) == ts,
            ts == split(text@, ','),
            token_groups(ts.take(k as int), default as nat) == Some(group_views(out@)),
        decreases tokens@.len() - k,
    {
        let tok = &tokens[k];
        proof {
            assert(tok@ == ts[k as int]);
            assert(ts.take(k + 1).drop_last() =~= ts.take(k as int));
            assert(ts.take(k + 1).last() == tok@);
            lemma_split_len(tok@, ':');
        }
        let parts = split_text(tok.as_str(), ':');
        let ghost before = out@;
        if parts.len() >= 2 {
            proof {
                assert(parts@[0]@ == split(tok@, ':')[0]);
                assert(parts@[1]@ == split(tok@, ':')[1]);
            }
            match parse_count(parts[1].as_str()) {
                Some(c) => {
                    out.push(GroupSpec { name: parts[0].clone(), count: c });
                },
                None => {
                    proof {
                        lemma_token_groups_none(ts, k + 1, default as nat);
                    }
                    return Err(KeygenError::InvalidGroupCount);
                },
            }
        } else {
            out.push(GroupSpec { name: tok.clone(), count: default });
        }
        proof {
            assert(group_views(out@) =~= group_views(before).push(group_views(out@).last()));
        }
        k = k + 1;
    }
    proof {
        assert(ts.take(k as int) =~= ts);
    }
    Ok(out)
}

/// Lists every slot of `groups`: the groups in order, and in each group the
/// indices `0..count` in order.
pub fn enumerate_slots(groups: &Vec<GroupSpec>) -> (r: Vec<Slot>)
    ensures
        slot_views(r@) == slots(group_views(groups@)),
{
    let ghost gv = group_views(groups@);
    let mut out: Vec<Slot> = Vec::new();
    let mut i: usize = 0;
    proof {
        assert(gv.take(0) =~= Seq::<(Seq<char>, nat)>::empty());
        assert(slot_views(out@) =~= Seq::<(Seq<char>, nat)>::empty());
    }
    while i < groups.len()
        invariant
            i <= groups@.len(),
            gv == group_views(groups@),
            slot_views(out@) == slots(gv.take(i as int)),
        decreases groups@.len() - i,
    {
        let g = &groups[i];
        let mut j: usize = 0;
        proof {
            assert(slot_views(out@) =~= slots(gv.take(i as int)) + group_block(gv[i as int]).take(0));
        }
        while j < g.count
            invariant
                i < groups@.len(),
                g == groups@[i as int],
                gv == group_views(groups@),
                j <= g.count,
                slot_views(out@) == slots(gv.take(i as int)) + group_block(gv[i as int]).take(j as int),
            decreases g.count - j,
        {
            let ghost before = out@;
            out.push(Slot { group: g.name.clone(), index: j });
            proof {
                assert(slot_views(out@) =~= slot_views(before).push((g.name@, j as nat)));
                assert(group_block(gv[i as int]).take(j + 1) =~= group_block(gv[i as int]).take(
                    j as int,
                ).push((g.name@, j as nat)));
            }
            j = j + 1;
        }
        proof {
            assert(gv.take(i + 1).drop_last() =~= gv.take(i as int));
            assert(group_block(gv[i as int]).take(j as int) =~= group_block(gv[i as int]));
        }
        i = i + 1;
    }
    proof {
        assert(gv.take(i as int) =~= gv);
    }
    out
}

proof fn lemma_total_prefix(gs: Seq<(Seq<char>, nat)>, i: int)
    requires
        0 <= i < gs.len(),
    ensures
        total_count(gs.take(i)) + gs[i].1 <= total_count(gs),
    decreases gs.len(),
{
    let init = gs.drop_last();
    if i == gs.len() - 1 {
        assert(gs.take(i) =~= init);
    } else {
        lemma_total_prefix(init, i);
        assert(gs.take(i) =~= init.take(i));
    }
}

proof fn lemma_slots_layout(gs: Seq<(Seq<char>, nat)>)
    ensures
        slots(gs).len() == total_count(gs),
        forall|i: int, j: int|
            0 <= i < gs.len() && 0 <= j < gs[i].1 ==> #[trigger] slots(gs)[total_count(gs.take(i))
                + j] == (gs[i].0, j as nat),
    decreases gs.len(),
{
    if gs.len() > 0 {
        let init = gs.drop_last();
        lemma_slots_layout(init);
        assert(total_count(gs) == total_count(init) + gs.last().1);
        assert(slots(gs) == slots(init) + group_block(gs.last()));
        assert forall|i: int, j: int|
            0 <= i < gs.len() && 0 <= j < gs[i].1 implies #[trigger] slots(gs)[total_count(
                gs.take(i),
            ) + j] == (gs[i].0, j as nat) by {
            if i < gs.len() - 1 {
                lemma_total_prefix(init, i);
                assert(gs.take(i) =~= init.take(i));
                assert(init[i] == gs[i]);
                assert(slots(init)[total_count(init.take(i)) + j] == (init[i].0, j as nat));
            } else {
                assert(gs.take(i) =~= init);
                assert(slots(gs)[total_count(init) + j] == group_block(gs.last())[j]);
            }
        }
    }
}

/// Every valid specification, enumerated, gives exactly as many slots as
/// its counts add up to, laid out group by group in the order of the
/// tokens and, within a group, by increasing index: the `j`-th node of the
/// `i`-th group stands after all nodes of the groups before it.
pub proof fn lemma_plan_enumeration(text: Seq<char>, default: nat)
    requires
        parse_spec(text, default) is Some,
    ensures
        ({
            let gs = parse_spec(text, default)->0;
            &&& slots(gs).len() == total_count(gs)
            &&& forall|i: int, j: int|
                0 <= i < gs.len() && 0 <= j < gs[i].1 ==> #[trigger] slots(gs)[total_count(
                    gs.take(i),
                ) + j] == (gs[i].0, j as nat)
        }),
{
    lemma_slots_layout(parse_spec(text, default)->0);
}

} // verus!
