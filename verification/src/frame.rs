//! The pure part of a redraw: which bars leave the stack, and the text written to the terminal.
use vstd::prelude::*;
use crate::text::{decimal, push_decimal};

verus! {

/// The elements of `s` whose flag (same position in `flags`) equals `want`, in their order.
pub open spec fn kept<T>(s: Seq<T>, flags: Seq<bool>, want: bool) -> Seq<T>
    decreases s.len(),
{
    if s.len() == 0 {
        Seq::empty()
    } else {
        let prefix = kept(s.drop_last(), flags, want);
        if flags[s.len() - 1] == want {
            prefix.push(s.last())
        } else {
            prefix
        }
    }
}

/// Splitting by flags loses and duplicates nothing: every element lands in exactly one of the
/// two parts, and both parts together hold what `s` held.
pub proof fn law_split_keeps_every_bar<T>(s: Seq<T>, flags: Seq<bool>)
    ensures
        kept(s, flags, false).len() + kept(s, flags, true).len() == s.len(),
        kept(s, flags, false).to_multiset().add(kept(s, flags, true).to_multiset())
            == s.to_multiset(),
    decreases s.len(),
{
    broadcast use vstd::seq_lib::group_to_multiset_ensures;

    if s.len() > 0 {
        law_split_keeps_every_bar(s.drop_last(), flags);
        assert(s == s.drop_last().push(s.last()));
        assert(kept(s, flags, false).to_multiset().add(kept(s, flags, true).to_multiset())
            =~= s.to_multiset());
    }
}

/// Where an element of a split came from: a position of `s` holding it, flagged `want`.
pub proof fn lemma_kept_index<T>(s: Seq<T>, flags: Seq<bool>, want: bool, x: T) -> (i: int)
    requires
        kept(s, flags, want).contains(x),
    ensures
        0 <= i < s.len(),
        s[i] == x,
        flags[i] == want,
    decreases s.len(),
{
    let prefix = kept(s.drop_last(), flags, want);
    if flags[s.len() - 1] == want && x == s.last() {
        (s.len() - 1) as int
    } else {
        if flags[s.len() - 1] == want {
            let k = choose|k: int| 0 <= k < prefix.push(s.last()).len() && prefix.push(s.last())[k]
                == x;
            assert(k < prefix.len());
            assert(prefix.contains(x));
        }
        lemma_kept_index(s.drop_last(), flags, want, x)
    }
}

/// Where an element of `s` goes in a split: the part for its flag holds it.
pub proof fn lemma_kept_contains<T>(s: Seq<T>, flags: Seq<bool>, want: bool, i: int)
    requires
        0 <= i < s.len(),
        flags[i] == want,
    ensures
        kept(s, flags, want).contains(s[i]),
    decreases s.len(),
{
    let prefix = kept(s.drop_last(), flags, want);
    if i == s.len() - 1 {
        let q = prefix.push(s.last());
        assert(q[q.len() - 1] == s[i]);
    } else {
        lemma_kept_contains(s.drop_last(), flags, want, i);
        assert(s.drop_last()[i] == s[i]);
        let j = choose|j: int| 0 <= j < prefix.len() && prefix[j] == s[i];
        if flags[s.len() - 1] == want {
            assert(prefix.push(s.last())[j] == prefix[j]);
        }
    }
}

/// A split of a sequence without repeats has no repeats either.
pub proof fn lemma_kept_no_duplicates<T>(s: Seq<T>, flags: Seq<bool>, want: bool)
    requires
        s.no_duplicates(),
    ensures
        kept(s, flags, want).no_duplicates(),
    decreases s.len(),
{
    if s.len() > 0 {
        let d = s.drop_last();
        assert(d.no_duplicates()) by {
            assert forall|i: int, j: int| 0 <= i < d.len() && 0 <= j < d.len() && i != j implies d[i]
                != d[j] by {
                assert(d[i] == s[i] && d[j] == s[j]);
            }
        }
        lemma_kept_no_duplicates(d, flags, want);
        let prefix = kept(d, flags, want);
        if flags[s.len() - 1] == want {
            if prefix.contains(s.last()) {
                let i = lemma_kept_index(d, flags, want, s.last());
                assert(s[i] == s[s.len() - 1]);
            }
            let q = prefix.push(s.last());
            assert forall|i: int, j: int| 0 <= i < q.len() && 0 <= j < q.len() && i != j implies q[i]
                != q[j] by {
                if i == q.len() - 1 {
                    assert(prefix[j] == q[j]);
                } else if j == q.len() - 1 {
                    assert(prefix[i] == q[i]);
                } else {
                    assert(prefix[i] == q[i] && prefix[j] == q[j]);
                }
            }
        }
    }
}

/// Splitting commutes with mapping every element.
pub proof fn lemma_kept_map<T, U>(s: Seq<T>, flags: Seq<bool>, want: bool, f: spec_fn(T) -> U)
    ensures
        kept(s.map_values(f), flags, want) == kept(s, flags, want).map_values(f),
    decreases s.len(),
{
    if s.len() > 0 {
        lemma_kept_map(s.drop_last(), flags, want, f);
        assert(s.map_values(f).drop_last() =~= s.drop_last().map_values(f));
        assert(kept(s.map_values(f), flags, want) =~= kept(s, flags, want).map_values(f));
    } else {
        assert(kept(s.map_values(f), flags, want) =~= kept(s, flags, want).map_values(f));
    }
}

/// Identities after a split: when the old finished identities and all the bars' identities are
/// distinct and below `bound`, the bars that stay have distinct identities below `bound`, and
/// none of them is among the finished or the newly retired ones.
pub proof fn lemma_split_ids(fin: Seq<nat>, all: Seq<nat>, flags: Seq<bool>, bound: nat)
    requires
        (fin + all).no_duplicates(),
        forall|i: int| 0 <= i < (fin + all).len() ==> #[trigger] (fin + all)[i] < bound,
        flags.len() == all.len(),
    ensures
        kept(all, flags, false).no_duplicates(),
        forall|i: int|
            0 <= i < kept(all, flags, false).len() ==> #[trigger] kept(all, flags, false)[i]
                < bound,
        forall|id: nat|
            (fin + kept(all, flags, true)).contains(id) ==> !kept(all, flags, false).contains(id),
{
    let s = fin + all;
    assert(all.no_duplicates()) by {
        assert forall|i: int, j: int| 0 <= i < all.len() && 0 <= j < all.len() && i != j implies all[i]
            != all[j] by {
            assert(s[fin.len() + i] == all[i] && s[fin.len() + j] == all[j]);
        }
    }
    lemma_kept_no_duplicates(all, flags, false);
    let stay = kept(all, flags, false);
    assert forall|i: int| 0 <= i < stay.len() implies #[trigger] stay[i] < bound by {
        assert(stay.contains(stay[i]));
        let k = lemma_kept_index(all, flags, false, stay[i]);
        assert(s[fin.len() + k] == all[k]);
    }
    assert forall|id: nat| (fin + kept(all, flags, true)).contains(id) implies !stay.contains(
        id,
    ) by {
        if stay.contains(id) {
            let j = lemma_kept_index(all, flags, false, id);
            let g = fin + kept(all, flags, true);
            let m = choose|m: int| 0 <= m < g.len() && g[m] == id;
            if m < fin.len() {
                assert(s[m] == id && s[fin.len() + j] == id);
            } else {
                assert(kept(all, flags, true)[m - fin.len()] == id);
                assert(kept(all, flags, true).contains(id));
                let i = lemma_kept_index(all, flags, true, id);
                assert(s[fin.len() + i] == id && s[fin.len() + j] == id);
            }
        }
    }
}

/// Fresh identities: adding identities `next, next + 1, ...` to distinct identities below
/// `next` keeps them distinct, and below the new bound.
pub proof fn lemma_fresh_ids(fin: Seq<nat>, act: Seq<nat>, added: Seq<nat>, next: nat)
    requires
        (fin + act).no_duplicates(),
        forall|i: int| 0 <= i < (fin + act).len() ==> #[trigger] (fin + act)[i] < next,
        forall|k: int| 0 <= k < added.len() ==> #[trigger] added[k] == next + k,
    ensures
        (fin + (act + added)).no_duplicates(),
        forall|i: int|
            0 <= i < (fin + (act + added)).len() ==> #[trigger] (fin + (act + added))[i] < next
                + added.len(),
{
    let old_ids = fin + act;
    let s = fin + (act + added);
    assert(s =~= old_ids + added);
    assert forall|i: int, j: int| 0 <= i < s.len() && 0 <= j < s.len() && i != j implies s[i] != s[j] by {
        if i < old_ids.len() && j < old_ids.len() {
            assert(s[i] == old_ids[i] && s[j] == old_ids[j]);
        } else if i < old_ids.len() {
            assert(s[i] == old_ids[i] && s[j] == added[j - old_ids.len()]);
        } else if j < old_ids.len() {
            assert(s[j] == old_ids[j] && s[i] == added[i - old_ids.len()]);
        } else {
            assert(s[i] == added[i - old_ids.len()] && s[j] == added[j - old_ids.len()]);
        }
    }
    assert forall|i: int| 0 <= i < s.len() implies #[trigger] s[i] < next + added.len() by {
        if i < old_ids.len() {
            assert(s[i] == old_ids[i]);
        } else {
            assert(s[i] == added[i - old_ids.len()]);
        }
    }
}

/// The escape sequence that moves the cursor up over the previous frame: nothing when no bar
/// was drawn before, else up by the number of bars drawn, but at most `max_height` lines.
pub open spec fn cursor_up(prev_num_bars: nat, max_height: nat) -> Seq<char> {
    if prev_num_bars == 0 {
        Seq::empty()
    } else {
        "\x1b["@ + decimal(if max_height < prev_num_bars { max_height } else { prev_num_bars }) + "A"@
    }
}

/// All `lines` written one after the other.
pub open spec fn concat_lines(lines: Seq<Seq<char>>) -> Seq<char>
    decreases lines.len(),
{
    if lines.len() == 0 {
        Seq::empty()
    } else {
        concat_lines(lines.drop_last()) + lines.last()
    }
}

/// One frame: back over the previous frame, then every bar's line.
pub open spec fn frame_text(prev_num_bars: nat, max_height: nat, lines: Seq<Seq<char>>) -> Seq<
    char,
> {
    cursor_up(prev_num_bars, max_height) + concat_lines(lines)
}

/// The views of a list of strings.
pub open spec fn views(lines: Seq<String>) -> Seq<Seq<char>> {
    lines.map_values(|l: String| l@)
}

/// The number of lines a frame may move up over, given the terminal's width and height: one
/// less than the height, or one when the size is unknown.
pub open spec fn height_of(dimensions: Option<(usize, usize)>) -> nat {
    match dimensions {
        Some((_, rows)) => (rows - 1) as nat,
        None => 1,
    }
}

/// The number of lines a frame may move up over: one less than the terminal's height, or one
/// when the height is unknown.
pub fn max_height(dimensions: Option<(usize, usize)>) -> (h: usize)
    requires
        dimensions matches Some((w, h)) ==> h > 0,
    ensures
        h == height_of(dimensions),
{
    match dimensions {
        Some((_, rows)) => rows - 1,
        None => 1,
    }
}

/// The text of one frame, from the previous frame's size, the height limit and the bars' lines.
pub fn render_frame(prev_num_bars: usize, max_height: usize, lines: &Vec<String>) -> (s: String)
    ensures
        s@ == frame_text(prev_num_bars as nat, max_height as nat, views(lines@)),
{
    let mut buffer = String::new();
    if prev_num_bars != 0 {
        let up = if max_height < prev_num_bars {
            max_height
        } else {
            prev_num_bars
        };
        buffer.append("\x1b[");
        push_decimal(&mut buffer, up as u128);
        buffer.append("A");
    }
    assert(buffer@ =~= cursor_up(prev_num_bars as nat, max_height as nat));
    let mut i: usize = 0;
    while i < lines.len()
        invariant
            i <= lines.len(),
            buffer@ == cursor_up(prev_num_bars as nat, max_height as nat) + concat_lines(
                views(lines@).take(i as int),
            ),
        decreases lines.len() - i,
    {
        buffer.append(lines[i].as_str());
        proof {
            let vs = views(lines@);
            assert(vs.take(i + 1).drop_last() =~= vs.take(i as int));
            assert(vs.take(i + 1).last() == lines@[i as int]@);
        }
        i = i + 1;
        assert(buffer@ =~= cursor_up(prev_num_bars as nat, max_height as nat) + concat_lines(
            views(lines@).take(i as int),
        ));
    }
    assert(views(lines@).take(lines.len() as int) =~= views(lines@));
    buffer
}

/// Moves the elements of `active` whose flag is set to the end of `finished`, keeping the order
/// of both.
pub fn retire_flagged<T>(active: &mut Vec<T>, finished: &mut Vec<T>, flags: &Vec<bool>)
    requires
        flags.len() == old(active).len(),
    ensures
        final(active)@ == kept(old(active)@, flags@, false),
        final(finished)@ == old(finished)@ + kept(old(active)@, flags@, true),
{
    let ghost start = active@;
    let n = active.len();
    let mut i: usize = 0;
    let mut j: usize = 0;
    while j < n
        invariant
            n == start.len(),
            flags.len() == n,
            j <= n,
            i == kept(start.take(j as int), flags@, false).len(),
            active@ == kept(start.take(j as int), flags@, false) + start.skip(j as int),
            finished@ == old(finished)@ + kept(start.take(j as int), flags@, true),
        decreases n - j,
    {
        proof {
            assert(start.take(j + 1).drop_last() =~= start.take(j as int));
            assert(start.take(j + 1).last() == start[j as int]);
            assert(start.skip(j as int).len() == n - j);
            law_split_keeps_every_bar(start.take(j as int), flags@);
            assert(i <= j);
            assert(active@[i as int] == start[j as int]);
        }
        if flags[j] {
            let bar = active.remove(i);
            finished.push(bar);
            assert(active@ =~= kept(start.take(j + 1), flags@, false) + start.skip(j + 1));
        } else {
            i = i + 1;
            assert(active@ =~= kept(start.take(j + 1), flags@, false) + start.skip(j + 1));
        }
        j = j + 1;
        assert(finished@ =~= old(finished)@ + kept(start.take(j as int), flags@, true));
    }
    assert(start.take(n as int) =~= start);
    assert(start.skip(n as int) =~= Seq::<T>::empty());
    assert(active@ =~= kept(start, flags@, false));
}

} // verus!
