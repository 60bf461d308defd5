//! The line layout engine: arranging rendered tab fragments, plus an
//! optional session-name prefix, into one row that fits a column budget,
//! eliding whole tabs behind directional overflow indicators when needed.

use vstd::prelude::*;
use vstd::string::StrSliceExecFns;
use vstd::string::StringExecFns;

verus! {

/// One printable, already-styled fragment of the rendered bar: its text
/// (escape codes included), its printable width (escape codes excluded),
/// and the 1-based position of the tab it came from — `None` for a
/// decoration such as the session-name prefix or an overflow indicator,
/// which a click can never select.
#[derive(Debug, PartialEq)]
pub struct LinePart {
    pub part: String,
    pub len: usize,
    pub tab_index: Option<usize>,
}

/// The mathematical image of a fragment.
#[verifier::ext_equal]
pub ghost struct LinePartV {
    pub part: Seq<char>,
    pub len: nat,
    pub tab_index: Option<usize>,
}

impl View for LinePart {
    type V = LinePartV;

    open spec fn view(&self) -> LinePartV {
        LinePartV { part: self.part@, len: self.len as nat, tab_index: self.tab_index }
    }
}

impl Default for LinePart {
    /// The empty, unclickable fragment.
    fn default() -> (r: Self)
        ensures
            r@.part == Seq::<char>::empty(),
            r@.len == 0,
            r@.tab_index is None,
    {
        LinePart { part: String::new(), len: 0, tab_index: None }
    }
}

/// Copy a string, keeping its characters.
pub fn copy_string(s: &String) -> (r: String)
    ensures
        r@ == s@,
{
    String::from_str(s.as_str())
}

impl LinePart {
    /// An exact copy of this fragment.
    pub fn duplicate(&self) -> (r: Self)
        ensures
            r@ == self@,
    {
        LinePart { part: copy_string(&self.part), len: self.len, tab_index: self.tab_index }
    }
}

/// The views of a sequence of fragments.
pub open spec fn views(s: Seq<LinePart>) -> Seq<LinePartV> {
    s.map_values(|p: LinePart| p@)
}

/// The total printable width of a sequence of fragments.
pub open spec fn sum_lens(s: Seq<LinePartV>) -> nat
    decreases s.len(),
{
    if s.len() == 0 {
        0
    } else {
        s[0].len + sum_lens(s.drop_first())
    }
}

/// Widths add over concatenation.
pub proof fn lemma_sum_lens_append(a: Seq<LinePartV>, b: Seq<LinePartV>)
    ensures
        sum_lens(a + b) == sum_lens(a) + sum_lens(b),
    decreases a.len(),
{
    if a.len() == 0 {
        assert(a + b =~= b);
    } else {
        assert((a + b).drop_first() =~= a.drop_first() + b);
        lemma_sum_lens_append(a.drop_first(), b);
    }
}

/// The width of one more fragment at the end.
pub proof fn lemma_sum_lens_push(s: Seq<LinePartV>, p: LinePartV)
    ensures
        sum_lens(s.push(p)) == sum_lens(s) + p.len,
{
    assert(s.push(p) =~= s + seq![p]);
    lemma_sum_lens_append(s, seq![p]);
    assert(sum_lens(seq![p]) == p.len + sum_lens(seq![p].drop_first()));
    assert(seq![p].drop_first() =~= Seq::<LinePartV>::empty());
}

/// The width of a single fragment.
pub proof fn lemma_sum_lens_singleton(p: LinePartV)
    ensures
        sum_lens(seq![p]) == p.len,
{
    assert(sum_lens(seq![p]) == p.len + sum_lens(seq![p].drop_first()));
    assert(seq![p].drop_first() =~= Seq::<LinePartV>::empty());
}

/// The single string a row flattens to: every fragment's text, in order.
pub open spec fn cat_parts(s: Seq<LinePartV>) -> Seq<char>
    decreases s.len(),
{
    if s.len() == 0 {
        Seq::<char>::empty()
    } else {
        s[0].part + cat_parts(s.drop_first())
    }
}

/// Flattening one more fragment at the end.
pub proof fn lemma_cat_parts_push(s: Seq<LinePartV>, p: LinePartV)
    ensures
        cat_parts(s.push(p)) == cat_parts(s) + p.part,
    decreases s.len(),
{
    if s.len() == 0 {
        assert(s.push(p)[0] == p);
        assert(s.push(p).drop_first() =~= Seq::<LinePartV>::empty());
        assert(cat_parts(Seq::<LinePartV>::empty()) == Seq::<char>::empty());
        assert(cat_parts(s.push(p)) == p.part + Seq::<char>::empty());
        assert(p.part + Seq::<char>::empty() =~= p.part);
        assert(cat_parts(s) + p.part =~= p.part);
    } else {
        assert(s.push(p).drop_first() =~= s.drop_first().push(p));
        lemma_cat_parts_push(s.drop_first(), p);
        assert(cat_parts(s) + p.part =~= s[0].part + (cat_parts(s.drop_first()) + p.part));
    }
}

/// The fixed frame put around the session name at the head of the bar, and
/// whether the session name is shown at all.
pub struct TabLine {
    pub prefix: String,
    pub suffix: String,
    pub session_name: bool,
}

impl Default for TabLine {
    fn default() -> (r: Self)
        ensures
            r.prefix@ == " Zellij ("@,
            r.suffix@ == ") "@,
            r.session_name == true,
    {
        TabLine {
            prefix: String::from_str(" Zellij ("),
            suffix: String::from_str(") "),
            session_name: true,
        }
    }
}

/// The characters of the session-name prefix fragment.
pub open spec fn session_prefix_seq(name: Seq<char>) -> Seq<char> {
    " Zellij ("@ + name + ") "@
}

/// The view of an optional session name.
pub open spec fn sn_view(session: Option<&String>) -> Option<Seq<char>> {
    match session {
        Some(s) => Some(s@),
        None => None,
    }
}

/// The fragments the session-name prefix contributes: one untagged fragment
/// when a name is present and not hidden, none otherwise.
pub open spec fn prefix_views(session: Option<Seq<char>>, hide: bool) -> Seq<LinePartV> {
    if hide {
        Seq::<LinePartV>::empty()
    } else {
        match session {
            Some(name) => seq![
                LinePartV {
                    part: session_prefix_seq(name),
                    len: session_prefix_seq(name).len(),
                    tab_index: None,
                },
            ],
            None => Seq::<LinePartV>::empty(),
        }
    }
}

/// The left overflow indicator: a fixed-width untagged fragment.
pub open spec fn left_ind_v() -> LinePartV {
    LinePartV { part: " < "@, len: " < "@.len(), tab_index: None }
}

/// The right overflow indicator: a fixed-width untagged fragment.
pub open spec fn right_ind_v() -> LinePartV {
    LinePartV { part: " > "@, len: " > "@.len(), tab_index: None }
}

/// The left indicator is present exactly when tabs are elided on the left.
pub open spec fn left_ind_views(lo: int) -> Seq<LinePartV> {
    if lo > 0 {
        seq![left_ind_v()]
    } else {
        Seq::<LinePartV>::empty()
    }
}

/// The right indicator is present exactly when tabs are elided on the right.
pub open spec fn right_ind_views(hi: int, n: int) -> Seq<LinePartV> {
    if hi + 1 < n {
        seq![right_ind_v()]
    } else {
        Seq::<LinePartV>::empty()
    }
}

/// The width an indicator contributes under a condition.
pub open spec fn ind3(present: bool) -> nat {
    if present {
        3
    } else {
        0
    }
}

/// The produced row is the prefix, then the left indicator if any tab is
/// elided on the left, then the contiguous window of whole tab fragments
/// from position `lo + 1` through `hi + 1`, then the right indicator if any
/// tab is elided on the right.
pub open spec fn layout_shape(
    pv: Seq<LinePartV>,
    tv: Seq<LinePartV>,
    pre: Seq<LinePartV>,
    lo: int,
    hi: int,
) -> bool {
    pv == pre + left_ind_views(lo) + tv.subrange(lo, hi + 1) + right_ind_views(
        hi,
        tv.len() as int,
    )
}

/// In any row of the produced shape, the active tab's fragment appears
/// exactly once, and every tagged fragment is the input fragment of the tab
/// its tag names.
pub proof fn lemma_layout_props(
    pv: Seq<LinePartV>,
    tv: Seq<LinePartV>,
    pre: Seq<LinePartV>,
    lo: int,
    hi: int,
    active: usize,
)
    requires
        0 <= lo <= active - 1 <= hi < tv.len(),
        tv.len() <= usize::MAX,
        layout_shape(pv, tv, pre, lo, hi),
        forall|i: int| 0 <= i < tv.len() ==> (#[trigger] tv[i]).tab_index == Some((i + 1) as usize),
        forall|i: int| 0 <= i < pre.len() ==> (#[trigger] pre[i]).tab_index is None,
    ensures
        exists|k: int| 0 <= k < pv.len() && (#[trigger] pv[k]).tab_index == Some(active),
        forall|k1: int, k2: int|
            0 <= k1 < pv.len() && 0 <= k2 < pv.len() && (#[trigger] pv[k1]).tab_index == Some(
                active,
            ) && (#[trigger] pv[k2]).tab_index == Some(active) ==> k1 == k2,
        forall|k: int|
            0 <= k < pv.len() && (#[trigger] pv[k]).tab_index is Some ==> 1
                <= pv[k].tab_index.unwrap() <= tv.len() && pv[k] == tv[pv[k].tab_index.unwrap()
                - 1],
{
    let p = pre.len() as int;
    let li = left_ind_views(lo).len() as int;
    let w = hi + 1 - lo;
    let ri = right_ind_views(hi, tv.len() as int).len() as int;
    assert(pv.len() == p + li + w + ri);
    assert forall|k: int| p + li <= k < p + li + w implies #[trigger] pv[k] == tv[lo + (k - p
        - li)] by {
        assert(pv[k] == tv.subrange(lo, hi + 1)[k - p - li]);
    }
    assert forall|k: int| 0 <= k < pv.len() && !(p + li <= k < p + li + w) implies (#[trigger] pv[
        k]).tab_index is None by {
        if k < p {
            assert(pv[k] == pre[k]);
        } else if k < p + li {
            assert(pv[k] == left_ind_views(lo)[k - p]);
            assert(pv[k] == left_ind_v());
        } else {
            assert(pv[k] == right_ind_views(hi, tv.len() as int)[k - p - li - w]);
            assert(pv[k] == right_ind_v());
        }
    }
    let ka = p + li + (active - 1 - lo);
    assert(pv[ka] == tv[active - 1]);
    assert(tv[active - 1].tab_index == Some(((active - 1) + 1) as usize));
    assert(pv[ka].tab_index == Some(active));
    assert(0 <= ka < pv.len());
    assert forall|k1: int, k2: int|
        0 <= k1 < pv.len() && 0 <= k2 < pv.len() && (#[trigger] pv[k1]).tab_index == Some(active)
            && (#[trigger] pv[k2]).tab_index == Some(active) implies k1 == k2 by {
        assert(p + li <= k1 < p + li + w);
        assert(p + li <= k2 < p + li + w);
        let i1 = lo + (k1 - p - li);
        let i2 = lo + (k2 - p - li);
        assert(pv[k1] == tv[i1]);
        assert(pv[k2] == tv[i2]);
        assert(tv[i1].tab_index == Some((i1 + 1) as usize));
        assert(tv[i2].tab_index == Some((i2 + 1) as usize));
        assert(0 <= i1 < tv.len() && 0 <= i2 < tv.len());
        assert((i1 + 1) as usize == (i2 + 1) as usize);
        assert(i1 + 1 <= tv.len() <= usize::MAX);
        assert(i2 + 1 <= tv.len() <= usize::MAX);
        assert(i1 == i2);
    }
    assert forall|k: int| 0 <= k < pv.len() && (#[trigger] pv[k]).tab_index is Some implies 1 <= pv[
        k].tab_index.unwrap() <= tv.len() && pv[k] == tv[pv[k].tab_index.unwrap() - 1] by {
        assert(p + li <= k < p + li + w);
        let idx = lo + (k - p - li);
        assert(pv[k] == tv[idx]);
        assert(tv[idx].tab_index == Some((idx + 1) as usize));
        assert(0 <= idx < tv.len());
        assert(idx + 1 <= tv.len() <= usize::MAX);
        assert(pv[k].tab_index.unwrap() == idx + 1);
    }
}

/// Arrange the rendered tab fragments, in tab-position order, into one row
/// of at most `max_width` printable columns.
///
/// When everything fits, the row is exactly the optional session-name
/// prefix followed by every tab fragment. Otherwise whole tabs are elided: a
/// contiguous window of tabs around the active one is kept, and a fixed
/// three-column indicator stands in for the elided tabs on each side. The
/// active tab's fragment is never elided; only when even that fragment
/// alone, with the prefix and the indicators, cannot fit is the budget
/// exceeded.
#[verifier::rlimit(100)]
pub fn tab_line(
    session_name: Option<&String>,
    all_tabs: &Vec<LinePart>,
    active_tab_index: usize,
    max_width: usize,
    hide_session_name: bool,
) -> (r: Vec<LinePart>)
    requires
        1 <= active_tab_index <= all_tabs@.len(),
        forall|i: int|
            0 <= i < all_tabs@.len() ==> (#[trigger] all_tabs@[i]).tab_index == Some(
                (i + 1) as usize,
            ),
    ensures
        exists|lo: int, hi: int|
            {
                &&& 0 <= lo <= active_tab_index - 1
                &&& active_tab_index - 1 <= hi < all_tabs@.len()
                &&& #[trigger] layout_shape(
                    views(r@),
                    views(all_tabs@),
                    prefix_views(sn_view(session_name), hide_session_name),
                    lo,
                    hi,
                )
                &&& ((lo != active_tab_index - 1 || hi != active_tab_index - 1) && sum_lens(
                    prefix_views(sn_view(session_name), hide_session_name),
                ) <= max_width ==> sum_lens(views(r@)) <= max_width)
                &&& (sum_lens(prefix_views(sn_view(session_name), hide_session_name)) + sum_lens(
                    views(all_tabs@),
                ) <= max_width ==> lo == 0 && hi == all_tabs@.len() - 1)
            },
        sum_lens(prefix_views(sn_view(session_name), hide_session_name)) + 6 + views(
            all_tabs@,
        )[active_tab_index - 1].len <= max_width ==> sum_lens(views(r@)) <= max_width,
        sum_lens(prefix_views(sn_view(session_name), hide_session_name)) + sum_lens(
            views(all_tabs@),
        ) <= max_width ==> views(r@) == prefix_views(sn_view(session_name), hide_session_name)
            + views(all_tabs@),
        exists|k: int|
            0 <= k < views(r@).len() && (#[trigger] views(r@)[k]).tab_index == Some(
                active_tab_index,
            ),
        forall|k1: int, k2: int|
            0 <= k1 < views(r@).len() && 0 <= k2 < views(r@).len() && (#[trigger] views(
                r@,
            )[k1]).tab_index == Some(active_tab_index) && (#[trigger] views(r@)[k2]).tab_index
                == Some(active_tab_index) ==> k1 == k2,
        forall|k: int|
            0 <= k < views(r@).len() && (#[trigger] views(r@)[k]).tab_index is Some ==> 1 <= views(
                r@,
            )[k].tab_index.unwrap() <= all_tabs@.len() && views(r@)[k] == views(
                all_tabs@,
            )[views(r@)[k].tab_index.unwrap() - 1],
{
    let ghost tv = views(all_tabs@);
    let ghost pre = prefix_views(sn_view(session_name), hide_session_name);
    let n = all_tabs.len();
    let a = active_tab_index - 1;
    proof {
        reveal_strlit(" < ");
        reveal_strlit(" > ");
        assert(left_ind_v().len == 3);
        assert(right_ind_v().len == 3);
        assert forall|i: int| 0 <= i < tv.len() implies (#[trigger] tv[i]).tab_index == Some(
            (i + 1) as usize,
        ) && tv[i].len == all_tabs@[i].len by {
            assert(tv[i] == all_tabs@[i]@);
        }
    }

    // The session-name prefix, reserved ahead of the tabs.
    let frame = TabLine::default();
    let mut prefix_part: Option<LinePart> = None;
    if !hide_session_name {
        match session_name {
            Some(name) => {
                let mut s = copy_string(&frame.prefix);
                s.append(name.as_str());
                s.append(frame.suffix.as_str());
                let w = s.as_str().unicode_len();
                prefix_part = Some(LinePart { part: s, len: w, tab_index: None });
            },
            None => {},
        }
    }
    let pw: usize = match &prefix_part {
        Some(p) => p.len,
        None => 0,
    };
    proof {
        match &prefix_part {
            Some(p) => {
                assert(pre =~= seq![p@]);
                lemma_sum_lens_singleton(p@);
            },
            None => {
                assert(pre =~= Seq::<LinePartV>::empty());
            },
        }
        assert(pw as nat == sum_lens(pre));
    }
    let remaining: usize = if pw <= max_width {
        max_width - pw
    } else {
        0
    };

    // The total width of every tab fragment, watching for overflow.
    let mut total: usize = 0;
    let mut overflow: bool = false;
    let mut i: usize = 0;
    while i < n
        invariant
            i <= n,
            n == all_tabs@.len(),
            tv == views(all_tabs@),
            !overflow ==> total as nat == sum_lens(tv.take(i as int)),
            overflow ==> sum_lens(tv.take(i as int)) > usize::MAX,
        decreases n - i,
    {
        let l = all_tabs[i].len;
        proof {
            assert(tv.take(i + 1) =~= tv.take(i as int).push(tv[i as int]));
            lemma_sum_lens_push(tv.take(i as int), tv[i as int]);
            assert(tv[i as int] == all_tabs@[i as int]@);
        }
        if !overflow && total <= usize::MAX - l {
            total = total + l;
        } else {
            overflow = true;
        }
        i = i + 1;
    }
    proof {
        assert(tv.take(n as int) =~= tv);
    }

    let fits = !overflow && pw <= max_width && total <= remaining;
    if fits {
        // Everything fits: the row is the prefix followed by every tab.
        let mut out: Vec<LinePart> = Vec::new();
        match &prefix_part {
            Some(p) => {
                out.push(p.duplicate());
            },
            None => {},
        }
        proof {
            assert(views(out@) =~= pre);
        }
        let mut j: usize = 0;
        while j < n
            invariant
                j <= n,
                n == all_tabs@.len(),
                tv == views(all_tabs@),
                views(out@) =~= pre + tv.take(j as int),
            decreases n - j,
        {
            let ghost old_out = out@;
            out.push(all_tabs[j].duplicate());
            proof {
                assert(views(out@) =~= views(old_out).push(all_tabs@[j as int]@));
                assert(tv.take(j + 1) =~= tv.take(j as int).push(tv[j as int]));
                assert(views(out@) =~= pre + tv.take(j + 1));
            }
            j = j + 1;
        }
        proof {
            assert(views(out@) =~= pre + tv);
            assert(tv.subrange(0, n as int) =~= tv);
            assert(left_ind_views(0) =~= Seq::<LinePartV>::empty());
            assert(right_ind_views(n - 1, n as int) =~= Seq::<LinePartV>::empty());
            assert(pre + Seq::<LinePartV>::empty() + tv.subrange(0, n as int)
                + Seq::<LinePartV>::empty() =~= pre + tv);
            assert(layout_shape(views(out@), tv, pre, 0, n - 1));
            lemma_sum_lens_append(pre, tv);
            assert(sum_lens(views(out@)) <= max_width);
            assert forall|i2: int| 0 <= i2 < pre.len() implies (#[trigger] pre[i2]).tab_index
                is None by {
                match sn_view(session_name) {
                    Some(name) => {
                        if !hide_session_name {
                            assert(pre[i2] == pre[0]);
                        }
                    },
                    None => {},
                }
            }
            lemma_layout_props(views(out@), tv, pre, 0, n - 1, active_tab_index);
        }
        return out;
    }

    // Elision: grow a window of whole tabs around the active one.
    let active_len = all_tabs[a].len;
    let mut lo: usize = a;
    let mut hi: usize = a;
    let mut used: usize = active_len;
    let mut left_w: usize = 0;
    let mut right_w: usize = 0;
    proof {
        assert(tv.subrange(a as int, a + 1) =~= seq![tv[a as int]]);
        lemma_sum_lens_singleton(tv[a as int]);
        assert(tv.subrange(a as int, a as int) =~= Seq::<LinePartV>::empty());
        assert(tv.subrange(a + 1, a + 1) =~= Seq::<LinePartV>::empty());
    }
    loop
        invariant
            n == all_tabs@.len(),
            n >= 1,
            tv == views(all_tabs@),
            a == active_tab_index - 1,
            1 <= active_tab_index <= n,
            lo <= a <= hi < n,
            used as nat == sum_lens(tv.subrange(lo as int, hi + 1)),
            left_w as nat == sum_lens(tv.subrange(lo as int, a as int)),
            right_w as nat == sum_lens(tv.subrange(a + 1, hi + 1)),
            used as nat == left_w as nat + all_tabs@[a as int].len + right_w as nat,
            remaining == if pw <= max_width {
                (max_width - pw) as usize
            } else {
                0usize
            },
            pw as nat == sum_lens(pre),
            (lo != a || hi != a) ==> used as nat + ind3(lo > 0) + ind3(hi + 1 < n) <= remaining,
            pw + 6 + all_tabs@[a as int].len <= max_width ==> used as nat + ind3(lo > 0) + ind3(
                hi + 1 < n,
            ) <= remaining,
        ensures
            lo <= a <= hi < n,
            used as nat == sum_lens(tv.subrange(lo as int, hi + 1)),
            (lo != a || hi != a) ==> used as nat + ind3(lo > 0) + ind3(hi + 1 < n) <= remaining,
            pw + 6 + all_tabs@[a as int].len <= max_width ==> used as nat + ind3(lo > 0) + ind3(
                hi + 1 < n,
            ) <= remaining,
        decreases lo + (n - hi),
    {
        let can_left = lo > 0;
        let can_right = hi + 1 < n;
        let mut fits_left = false;
        let mut cand_left: usize = 0;
        if can_left {
            cand_left = all_tabs[lo - 1].len;
            let indl: usize = if lo - 1 > 0 {
                3
            } else {
                0
            };
            let indr: usize = if hi + 1 < n {
                3
            } else {
                0
            };
            if used <= remaining {
                let avail = remaining - used;
                if cand_left <= avail {
                    if indl + indr <= avail - cand_left {
                        fits_left = true;
                    }
                }
            }
        }
        let mut fits_right = false;
        let mut cand_right: usize = 0;
        if can_right {
            cand_right = all_tabs[hi + 1].len;
            let indl: usize = if lo > 0 {
                3
            } else {
                0
            };
            let indr: usize = if hi + 2 < n {
                3
            } else {
                0
            };
            if used <= remaining {
                let avail = remaining - used;
                if cand_right <= avail {
                    if indl + indr <= avail - cand_right {
                        fits_right = true;
                    }
                }
            }
        }
        if fits_left && (!fits_right || left_w <= right_w) {
            proof {
                assert(tv.subrange(lo - 1, hi + 1) =~= seq![tv[lo - 1]] + tv.subrange(
                    lo as int,
                    hi + 1,
                ));
                lemma_sum_lens_append(seq![tv[lo - 1]], tv.subrange(lo as int, hi + 1));
                lemma_sum_lens_singleton(tv[lo - 1]);
                assert(tv.subrange(lo - 1, a as int) =~= seq![tv[lo - 1]] + tv.subrange(
                    lo as int,
                    a as int,
                ));
                lemma_sum_lens_append(seq![tv[lo - 1]], tv.subrange(lo as int, a as int));
                assert(tv[lo - 1] == all_tabs@[lo - 1]@);
            }
            assert(used + cand_left <= remaining);
            lo = lo - 1;
            used = used + cand_left;
            left_w = left_w + cand_left;
        } else if fits_right && (!fits_left || right_w < left_w) {
            proof {
                assert(tv.subrange(lo as int, hi + 2) =~= tv.subrange(lo as int, hi + 1)
                    + seq![tv[hi + 1]]);
                lemma_sum_lens_append(tv.subrange(lo as int, hi + 1), seq![tv[hi + 1]]);
                lemma_sum_lens_singleton(tv[hi + 1]);
                assert(tv.subrange(a + 1, hi + 2) =~= tv.subrange(a + 1, hi + 1) + seq![tv[hi + 1]]);
                lemma_sum_lens_append(tv.subrange(a + 1, hi + 1), seq![tv[hi + 1]]);
                assert(tv[hi + 1] == all_tabs@[hi + 1]@);
            }
            assert(used + cand_right <= remaining);
            hi = hi + 1;
            used = used + cand_right;
            right_w = right_w + cand_right;
        } else {
            break ;
        }
    }

    // Assemble: prefix, left indicator, window, right indicator.
    let mut out: Vec<LinePart> = Vec::new();
    match &prefix_part {
        Some(p) => {
            out.push(p.duplicate());
        },
        None => {},
    }
    proof {
        assert(views(out@) =~= pre);
        reveal_strlit(" < ");
        reveal_strlit(" > ");
    }
    if lo > 0 {
        let s = String::from_str(" < ");
        let w = s.as_str().unicode_len();
        out.push(LinePart { part: s, len: w, tab_index: None });
    }
    proof {
        assert(views(out@) =~= pre + left_ind_views(lo as int));
    }
    let mut j: usize = lo;
    while j <= hi
        invariant
            n == all_tabs@.len(),
            tv == views(all_tabs@),
            lo <= a <= hi < n,
            a == active_tab_index - 1,
            lo <= j <= hi + 1,
            views(out@) =~= pre + left_ind_views(lo as int) + tv.subrange(lo as int, j as int),
        decreases hi + 1 - j,
    {
        let ghost old_out = out@;
        out.push(all_tabs[j].duplicate());
        proof {
            assert(views(out@) =~= views(old_out).push(all_tabs@[j as int]@));
            assert(tv.subrange(lo as int, j + 1) =~= tv.subrange(lo as int, j as int).push(
                tv[j as int],
            ));
            assert(tv[j as int] == all_tabs@[j as int]@);
        }
        j = j + 1;
    }
    if hi + 1 < n {
        let s = String::from_str(" > ");
        let w = s.as_str().unicode_len();
        out.push(LinePart { part: s, len: w, tab_index: None });
    }
    proof {
        reveal_strlit(" < ");
        reveal_strlit(" > ");
        assert(views(out@) =~= pre + left_ind_views(lo as int) + tv.subrange(lo as int, hi + 1)
            + right_ind_views(hi as int, n as int));
        assert(layout_shape(views(out@), tv, pre, lo as int, hi as int));
        lemma_sum_lens_append(pre, left_ind_views(lo as int));
        lemma_sum_lens_append(pre + left_ind_views(lo as int), tv.subrange(lo as int, hi + 1));
        lemma_sum_lens_append(
            pre + left_ind_views(lo as int) + tv.subrange(lo as int, hi + 1),
            right_ind_views(hi as int, n as int),
        );
        if lo > 0 {
            lemma_sum_lens_singleton(left_ind_v());
        }
        if hi + 1 < n {
            lemma_sum_lens_singleton(right_ind_v());
        }
        assert(sum_lens(left_ind_views(lo as int)) == ind3(lo > 0));
        assert(sum_lens(right_ind_views(hi as int, n as int)) == ind3(hi + 1 < n));
        assert(sum_lens(views(out@)) == pw + ind3(lo > 0) + used + ind3(hi + 1 < n));
        // If the prefix, both indicators and the active tab alone fit, the
        // window the loop kept fits too.
        if pw + 6 + tv[a as int].len <= max_width {
            assert(pw <= max_width);
            assert(used as nat + ind3(lo > 0) + ind3(hi + 1 < n) <= remaining);
            assert(sum_lens(views(out@)) <= max_width);
        }
        if (lo != a || hi != a) && pw <= max_width {
            assert(sum_lens(views(out@)) <= max_width);
        }
        // The no-elision case cannot reach this branch.
        if pw as nat + sum_lens(tv) <= max_width {
            assert(sum_lens(tv) <= usize::MAX);
            assert(!overflow);
            assert(total as nat == sum_lens(tv));
            assert(pw <= max_width);
            assert(total <= remaining);
            assert(false);
        }
        assert forall|i2: int| 0 <= i2 < pre.len() implies (#[trigger] pre[i2]).tab_index
            is None by {
            match sn_view(session_name) {
                Some(name) => {
                    if !hide_session_name {
                        assert(pre[i2] == pre[0]);
                    }
                },
                None => {},
            }
        }
        lemma_layout_props(views(out@), tv, pre, lo as int, hi as int, active_tab_index);
    }
    out
}

} // verus!
