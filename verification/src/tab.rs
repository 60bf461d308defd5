//! Tabs as the host reports them, the per-client cursor badges, and the
//! click mapper that turns a clicked column back into the tab it landed on.

use vstd::prelude::*;
use crate::ansi::{ansi_paint, pair_ansi, pair_ansi_exec, painted};
use crate::line::{views, LinePart, LinePartV, sum_lens};
use crate::style::{Palette, PaletteColor};

verus! {

/// One open workspace tab: its 1-based position, display name, whether it
/// is the active tab, whether its panes are synchronized, and the
/// identifiers of the other clients currently focused on it.
#[derive(Debug, PartialEq)]
pub struct Tab {
    pub position: usize,
    pub name: String,
    pub active: bool,
    pub is_sync_panes_active: bool,
    pub other_focused_clients: Vec<u16>,
}

/// The mathematical image of a tab.
#[verifier::ext_equal]
pub ghost struct TabV {
    pub position: usize,
    pub name: Seq<char>,
    pub active: bool,
    pub is_sync_panes_active: bool,
    pub other_focused_clients: Seq<u16>,
}

impl View for Tab {
    type V = TabV;

    open spec fn view(&self) -> TabV {
        TabV {
            position: self.position,
            name: self.name@,
            active: self.active,
            is_sync_panes_active: self.is_sync_panes_active,
            other_focused_clients: self.other_focused_clients@,
        }
    }
}

impl Tab {
    /// An exact copy of this tab.
    pub fn duplicate(&self) -> (r: Self)
        ensures
            r@ == self@,
    {
        let r = Tab {
            position: self.position,
            name: crate::line::copy_string(&self.name),
            active: self.active,
            is_sync_panes_active: self.is_sync_panes_active,
            other_focused_clients: self.other_focused_clients.clone(),
        };
        proof {
            assert(r@ =~= self@);
        }
        r
    }
}

/// The stable identifier-to-color mapping for client cursors: the first ten
/// client identifiers each get a fixed (badge, text) pair of palette
/// entries; any other identifier has no mapped color.
pub open spec fn client_colors(client_id: u16, p: Palette) -> Option<(PaletteColor, PaletteColor)> {
    if client_id == 1 {
        Some((p.magenta, p.black))
    } else if client_id == 2 {
        Some((p.blue, p.black))
    } else if client_id == 3 {
        Some((p.purple, p.black))
    } else if client_id == 4 {
        Some((p.yellow, p.black))
    } else if client_id == 5 {
        Some((p.cyan, p.black))
    } else if client_id == 6 {
        Some((p.gold, p.black))
    } else if client_id == 7 {
        Some((p.red, p.black))
    } else if client_id == 8 {
        Some((p.silver, p.black))
    } else if client_id == 9 {
        Some((p.pink, p.black))
    } else if client_id == 10 {
        Some((p.brown, p.black))
    } else {
        None
    }
}

/// Look up the badge and text colors of one client identifier.
pub fn client_id_to_colors(client_id: u16, palette: &Palette) -> (r: Option<
    (PaletteColor, PaletteColor),
>)
    ensures
        r == client_colors(client_id, *palette),
{
    match client_id {
        1 => Some((palette.magenta, palette.black)),
        2 => Some((palette.blue, palette.black)),
        3 => Some((palette.purple, palette.black)),
        4 => Some((palette.yellow, palette.black)),
        5 => Some((palette.cyan, palette.black)),
        6 => Some((palette.gold, palette.black)),
        7 => Some((palette.red, palette.black)),
        8 => Some((palette.silver, palette.black)),
        9 => Some((palette.pink, palette.black)),
        10 => Some((palette.brown, palette.black)),
        _ => None,
    }
}

/// The single-character cursor badge of one client: a space painted with
/// the client's text color on its badge color, or nothing for a client with
/// no mapped color.
pub open spec fn badge_seq(client_id: u16, p: Palette) -> Seq<char> {
    match client_colors(client_id, p) {
        Some(c) => painted(pair_ansi(c.1, c.0), " "@),
        None => Seq::<char>::empty(),
    }
}

/// The badges of a client list, in order, skipping unmapped clients.
pub open spec fn badges_seq(ids: Seq<u16>, p: Palette) -> Seq<char>
    decreases ids.len(),
{
    if ids.len() == 0 {
        Seq::<char>::empty()
    } else {
        badge_seq(ids[0], p) + badges_seq(ids.drop_first(), p)
    }
}

/// How many of the clients have a mapped color — the printable width the
/// badges contribute, one column each.
pub open spec fn badge_count(ids: Seq<u16>, p: Palette) -> nat
    decreases ids.len(),
{
    if ids.len() == 0 {
        0
    } else {
        (if client_colors(ids[0], p) is Some {
            1nat
        } else {
            0nat
        }) + badge_count(ids.drop_first(), p)
    }
}

/// Badges and their count add over concatenation of client lists.
pub proof fn lemma_badges_append(x: Seq<u16>, y: Seq<u16>, p: Palette)
    ensures
        badges_seq(x + y, p) == badges_seq(x, p) + badges_seq(y, p),
        badge_count(x + y, p) == badge_count(x, p) + badge_count(y, p),
    decreases x.len(),
{
    if x.len() == 0 {
        assert(x + y =~= y);
        assert(badges_seq(x, p) + badges_seq(y, p) =~= badges_seq(y, p));
    } else {
        assert((x + y).drop_first() =~= x.drop_first() + y);
        lemma_badges_append(x.drop_first(), y, p);
        assert(badges_seq(x, p) + badges_seq(y, p) =~= badge_seq(x[0], p) + (badges_seq(
            x.drop_first(),
            p,
        ) + badges_seq(y, p)));
    }
}

/// One more client at the end of the list.
pub proof fn lemma_badges_push(ids: Seq<u16>, id: u16, p: Palette)
    ensures
        badges_seq(ids.push(id), p) == badges_seq(ids, p) + badge_seq(id, p),
        badge_count(ids.push(id), p) == badge_count(ids, p) + (if client_colors(id, p) is Some {
            1nat
        } else {
            0nat
        }),
{
    assert(ids.push(id) =~= ids + seq![id]);
    lemma_badges_append(ids, seq![id], p);
    assert(seq![id][0] == id);
    assert(seq![id].drop_first() =~= Seq::<u16>::empty());
    assert(badges_seq(Seq::<u16>::empty(), p) == Seq::<char>::empty());
    assert(badge_count(Seq::<u16>::empty(), p) == 0);
    assert(badges_seq(seq![id], p) == badge_seq(id, p) + badges_seq(Seq::<u16>::empty(), p));
    assert(badge_seq(id, p) + Seq::<char>::empty() =~= badge_seq(id, p));
    assert(badge_count(seq![id], p) == (if client_colors(id, p) is Some {
        1nat
    } else {
        0nat
    }) + badge_count(Seq::<u16>::empty(), p));
}

/// The concatenation of a sequence of strings.
pub open spec fn cat_strings(ss: Seq<String>) -> Seq<char>
    decreases ss.len(),
{
    if ss.len() == 0 {
        Seq::<char>::empty()
    } else {
        ss[0]@ + cat_strings(ss.drop_first())
    }
}

/// Concatenation of one more string at the end.
pub proof fn lemma_cat_strings_push(ss: Seq<String>, s: String)
    ensures
        cat_strings(ss.push(s)) == cat_strings(ss) + s@,
    decreases ss.len(),
{
    if ss.len() == 0 {
        assert(ss.push(s)[0] == s);
        assert(ss.push(s).drop_first() =~= Seq::<String>::empty());
        assert(cat_strings(Seq::<String>::empty()) == Seq::<char>::empty());
        assert(cat_strings(ss.push(s)) == s@ + Seq::<char>::empty());
        assert(s@ + Seq::<char>::empty() =~= s@);
        assert(cat_strings(ss) + s@ =~= s@);
    } else {
        assert(ss.push(s).drop_first() =~= ss.drop_first().push(s));
        lemma_cat_strings_push(ss.drop_first(), s);
        assert(cat_strings(ss) + s@ =~= ss[0]@ + (cat_strings(ss.drop_first()) + s@));
    }
}

/// Render the cursor badges for the clients focused on a tab: one
/// single-column badge per client with a mapped color, in client order.
/// Returns the badges and the total width they contribute.
pub fn cursors(focused_clients: &Vec<u16>, palette: &Palette) -> (r: (Vec<String>, usize))
    ensures
        cat_strings(r.0@) == badges_seq(focused_clients@, *palette),
        r.1 as nat == badge_count(focused_clients@, *palette),
{
    let ghost ids = focused_clients@;
    let mut out: Vec<String> = Vec::new();
    let mut count: usize = 0;
    let mut i: usize = 0;
    let n = focused_clients.len();
    proof {
        assert(ids.take(0) =~= Seq::<u16>::empty());
    }
    while i < n
        invariant
            i <= n,
            n == ids.len(),
            ids == focused_clients@,
            count <= i,
            cat_strings(out@) == badges_seq(ids.take(i as int), *palette),
            count as nat == badge_count(ids.take(i as int), *palette),
        decreases n - i,
    {
        let id = focused_clients[i];
        let ghost old_out = out@;
        proof {
            assert(ids.take(i + 1) =~= ids.take(i as int).push(ids[i as int]));
            lemma_badges_push(ids.take(i as int), ids[i as int], *palette);
        }
        match client_id_to_colors(id, palette) {
            Some(c) => {
                let sp = pair_ansi_exec(c.1, c.0);
                let badge = ansi_paint(&sp, " ");
                proof {
                    lemma_cat_strings_push(old_out, badge);
                }
                out.push(badge);
                count = count + 1;
            },
            None => {
                proof {
                    assert(badge_seq(ids[i as int], *palette) =~= Seq::<char>::empty());
                    assert(cat_strings(out@) + Seq::<char>::empty() =~= cat_strings(out@));
                }
            },
        }
        i = i + 1;
    }
    proof {
        assert(ids.take(n as int) =~= ids);
    }
    (out, count)
}

/// The fragment a clicked column lands in: walking the fragments left to
/// right, the one whose half-open width range contains the column.
pub open spec fn hit_part(parts: Seq<LinePartV>, col: int) -> Option<LinePartV>
    decreases parts.len(),
{
    if parts.len() == 0 {
        None
    } else if col < parts[0].len {
        Some(parts[0])
    } else {
        hit_part(parts.drop_first(), col - parts[0].len)
    }
}

/// Which tab a click should switch to: the tab of the fragment the column
/// lands in — no switch for a decoration, a miss, or the already-active tab.
pub open spec fn focus_spec(parts: Seq<LinePartV>, active_tab_idx: usize, col: int) -> Option<
    usize,
> {
    match hit_part(parts, col) {
        Some(p) => match p.tab_index {
            Some(t) => if t != active_tab_idx {
                Some(t)
            } else {
                None
            },
            None => None,
        },
        None => None,
    }
}

/// Find the fragment of the last rendered row that a clicked column lands
/// in, if any.
pub fn get_clicked_line_part<'a>(tab_line_parts: &'a Vec<LinePart>, mouse_click_col: usize) -> (r:
    Option<&'a LinePart>)
    ensures
        match r {
            Some(p) => hit_part(views(tab_line_parts@), mouse_click_col as int) == Some(p@),
            None => hit_part(views(tab_line_parts@), mouse_click_col as int) is None,
        },
{
    let ghost pv = views(tab_line_parts@);
    let n = tab_line_parts.len();
    let mut i: usize = 0;
    let mut rem: usize = mouse_click_col;
    proof {
        assert(pv.skip(0) =~= pv);
    }
    while i < n
        invariant
            i <= n,
            n == tab_line_parts@.len(),
            pv == views(tab_line_parts@),
            hit_part(pv, mouse_click_col as int) == hit_part(pv.skip(i as int), rem as int),
        decreases n - i,
    {
        let pl = tab_line_parts[i].len;
        proof {
            assert(pv.skip(i as int)[0] == tab_line_parts@[i as int]@);
        }
        if rem < pl {
            proof {
                assert(hit_part(pv.skip(i as int), rem as int) == Some(pv.skip(i as int)[0]));
            }
            return Some(&tab_line_parts[i]);
        }
        proof {
            assert(pv.skip(i as int).drop_first() =~= pv.skip(i + 1));
        }
        rem = rem - pl;
        i = i + 1;
    }
    proof {
        assert(pv.skip(n as int) =~= Seq::<LinePartV>::empty());
    }
    None
}

/// Which tab, if any, a click at the given column should switch to,
/// given the last rendered row and the currently active tab.
pub fn get_tab_to_focus(
    tab_line_parts: &Vec<LinePart>,
    active_tab_idx: usize,
    mouse_click_col: usize,
) -> (r: Option<usize>)
    ensures
        r == focus_spec(views(tab_line_parts@), active_tab_idx, mouse_click_col as int),
{
    let clicked = get_clicked_line_part(tab_line_parts, mouse_click_col);
    match clicked {
        Some(p) => match p.tab_index {
            Some(t) => if t != active_tab_idx {
                Some(t)
            } else {
                None
            },
            None => None,
        },
        None => None,
    }
}

/// The width of the row before fragment `k`.
pub open spec fn cum_len(parts: Seq<LinePartV>, k: int) -> nat {
    sum_lens(parts.take(k))
}

/// A column inside fragment `k`'s width range always lands in fragment `k`.
pub proof fn lemma_click_hits_fragment(parts: Seq<LinePartV>, k: int, col: int)
    requires
        0 <= k < parts.len(),
        cum_len(parts, k) <= col < cum_len(parts, k) + parts[k].len,
    ensures
        hit_part(parts, col) == Some(parts[k]),
    decreases k,
{
    if k == 0 {
        assert(parts.take(0) =~= Seq::<LinePartV>::empty());
        assert(col < parts[0].len);
    } else {
        assert(parts.take(k)[0] == parts[0]);
        assert(parts.take(k).drop_first() =~= parts.drop_first().take(k - 1));
        assert(cum_len(parts, k) == parts[0].len + cum_len(parts.drop_first(), k - 1));
        assert(col >= parts[0].len);
        assert(parts.drop_first()[k - 1] == parts[k]);
        lemma_click_hits_fragment(parts.drop_first(), k - 1, col - parts[0].len);
    }
}

/// The click round trip: clicking any column within a tab fragment's range
/// selects that fragment's tab, unless it is already the active one, in
/// which case nothing is switched.
pub proof fn lemma_click_round_trip(parts: Seq<LinePartV>, k: int, col: int, active_tab_idx: usize)
    requires
        0 <= k < parts.len(),
        cum_len(parts, k) <= col < cum_len(parts, k) + parts[k].len,
        parts[k].tab_index is Some,
    ensures
        focus_spec(parts, active_tab_idx, col) == (if parts[k].tab_index.unwrap()
            == active_tab_idx {
            None::<usize>
        } else {
            parts[k].tab_index
        }),
{
    lemma_click_hits_fragment(parts, k, col);
}

} // verus!
