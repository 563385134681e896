//! Tray menu client: lazily fetched context menus and their popups.
//!
//! Each tray item owns one shared menu cache. The first size or render
//! request of a popup triggers exactly one asynchronous layout fetch —
//! an empty placeholder is installed eagerly, so concurrent requests
//! during the fetch window never trigger a second one — and once the
//! reply is decoded into the cache, further requests read it directly.
//!
//! Text measurement belongs to the font collaborator: callers hand in the
//! measured size of the title and of every entry label, in the same
//! integer units the returned sizes use.

use vstd::prelude::*;
use crate::notify::NotifierList;

verus! {

/// Gap a separator (and the divider under the title) contributes.
pub const SEP_GAP: u64 = 9;

/// Vertical padding under each labeled entry.
pub const LABEL_PAD: u64 = 5;

/// Outer margin added to both dimensions of a popup.
pub const POPUP_MARGIN: u64 = 4;

/// Offset of the popup content from the popup origin.
pub const POPUP_OFFSET: u64 = 2;

/// Upper bound on measured text sizes callers may hand in.
pub const MAX_TEXT: u32 = 0x7FFFFFFF;

/// Upper bound on the number of menu entries a cache may hold.
pub const MAX_ENTRIES: usize = 65536;

/// Fetch progress of one menu cache: an explicit tag, so "a fetch has
/// been started" is never inferred from "the cache is empty".
#[derive(Clone, Copy, PartialEq, Eq, Structural, Debug)]
pub enum MenuState {
    Unfetched,
    Fetching,
    Populated,
}

/// One top-level menu entry: a separator, or a labeled row that can be
/// clicked and reported to the remote object under its identifier.
pub struct MenuEntry {
    pub id: i32,
    pub is_sep: bool,
    pub label: String,
}

/// The shared, lazily populated snapshot of one remote menu, plus the
/// interest registry of whoever displayed it.
pub struct MenuCache {
    pub state: MenuState,
    pub entries: Vec<MenuEntry>,
    pub interested: NotifierList,
}

/// The remote fetch a size or render request asks the caller to start:
/// invoke the menu's "about to show" operation (its result is ignored),
/// then request the layout restricted to entry type and label, decode it
/// with [`decode_menu_entries`], and hand the result to
/// [`MenuCache::install`].
pub struct MenuFetch {
    pub owner: String,
    pub menu_path: String,
}

/// A click resolved to a menu entry: the caller fires the remote "Event"
/// invocation of kind "clicked" with this identifier and timestamp.
pub struct MenuClick {
    pub owner: String,
    pub menu_path: String,
    pub entry_id: i32,
    pub timestamp_ms: u32,
}

/// Whether a size request on a cache in this state starts a fetch.
pub open spec fn spec_fetch_triggered(s: MenuState) -> bool {
    s is Unfetched
}

/// The cache state after a size request: the first one installs the
/// placeholder and moves to fetching, any other leaves the state alone.
pub open spec fn spec_after_size_request(s: MenuState) -> MenuState {
    if s is Unfetched {
        MenuState::Fetching
    } else {
        s
    }
}

/// Law: the fetch is idempotent per popup. A size request on a cache that
/// has already seen one (or whose fetch has completed) never starts a
/// second fetch, and repeating a request does not change the state again.
pub proof fn lemma_menu_fetch_idempotent(s: MenuState)
    ensures
        !(spec_fetch_triggered(s) && spec_fetch_triggered(spec_after_size_request(s))),
        spec_after_size_request(spec_after_size_request(s)) == spec_after_size_request(s),
{
}

/// Total height the entries contribute: a separator contributes the fixed
/// gap, a labeled entry its measured height plus fixed padding.
pub open spec fn spec_menu_height(entries: Seq<MenuEntry>, sizes: Seq<(u32, u32)>) -> int
    decreases entries.len(),
{
    if entries.len() == 0 {
        0
    } else {
        spec_menu_height(entries.drop_last(), sizes.drop_last()) + (if entries.last().is_sep {
            SEP_GAP as int
        } else {
            sizes[entries.len() - 1].1 + LABEL_PAD as int
        })
    }
}

/// Widest measured label among the entries (separators have no width).
pub open spec fn spec_menu_width(entries: Seq<MenuEntry>, sizes: Seq<(u32, u32)>) -> int
    decreases entries.len(),
{
    if entries.len() == 0 {
        0
    } else {
        let front = spec_menu_width(entries.drop_last(), sizes.drop_last());
        let this = if entries.last().is_sep {
            0int
        } else {
            sizes[entries.len() - 1].0 as int
        };
        if front < this {
            this
        } else {
            front
        }
    }
}

/// The width a popup takes: the title or the widest entry, plus margin.
pub open spec fn spec_popup_width(title_w: u32, entries: Seq<MenuEntry>, sizes: Seq<(u32, u32)>) -> int {
    let m = spec_menu_width(entries, sizes);
    (if title_w as int > m {
        title_w as int
    } else {
        m
    }) + POPUP_MARGIN as int
}

/// The height a popup takes: the title, a divider gap if any entries
/// exist, every entry's contribution, plus margin.
pub open spec fn spec_popup_height(title_h: u32, entries: Seq<MenuEntry>, sizes: Seq<(u32, u32)>) -> int {
    title_h + (if entries.len() > 0 {
        SEP_GAP as int
    } else {
        0int
    }) + spec_menu_height(entries, sizes) + POPUP_MARGIN as int
}

/// The vertical extents labeled entries occupy when the menu is rendered
/// with its content starting at `base`: one `(top, bottom, id)` triple per
/// labeled entry, in order.
pub open spec fn spec_extents(
    entries: Seq<MenuEntry>,
    sizes: Seq<(u32, u32)>,
    base: int,
) -> Seq<(u64, u64, i32)>
    decreases entries.len(),
{
    if entries.len() == 0 {
        Seq::empty()
    } else {
        let front = spec_extents(entries.drop_last(), sizes.drop_last(), base);
        if entries.last().is_sep {
            front
        } else {
            let top = base + spec_menu_height(entries.drop_last(), sizes.drop_last());
            front.push(
                (top as u64, (top + sizes[entries.len() - 1].1) as u64, entries.last().id),
            )
        }
    }
}

/// The first recorded extent that contains `y`, if any.
pub open spec fn spec_hit(ids: Seq<(u64, u64, i32)>, y: u64) -> Option<i32>
    decreases ids.len(),
{
    if ids.len() == 0 {
        None
    } else if ids[0].0 <= y <= ids[0].1 {
        Some(ids[0].2)
    } else {
        spec_hit(ids.skip(1), y)
    }
}

/// Measured sizes are small enough for exact integer sizing.
pub open spec fn spec_sizes_wf(sizes: Seq<(u32, u32)>) -> bool {
    forall|i: int|
        0 <= i < sizes.len() ==> (#[trigger] sizes[i]).0 <= MAX_TEXT && sizes[i].1 <= MAX_TEXT
}

impl MenuCache {
    /// A cache nothing has asked for yet.
    pub fn new() -> (r: MenuCache)
        ensures
            r.state is Unfetched,
            r.entries@ == Seq::<MenuEntry>::empty(),
            r.interested.interested@ == Seq::<u64>::empty(),
    {
        MenuCache { state: MenuState::Unfetched, entries: Vec::new(), interested: NotifierList::new() }
    }

    /// A layout reply arrived: store the decoded entries, mark the cache
    /// populated, and drain the interest registry so the caller can ask
    /// every interested party for a redraw. Installing into a cache whose
    /// item has meanwhile gone away is harmless.
    pub fn install(&mut self, entries: Vec<MenuEntry>) -> (woken: Vec<u64>)
        ensures
            final(self).state is Populated,
            final(self).entries == entries,
            woken@ == old(self).interested.interested@,
            final(self).interested.interested@ == Seq::<u64>::empty(),
    {
        self.state = MenuState::Populated;
        self.entries = entries;
        self.interested.notify_data()
    }
}

/// Turn the decoded fields of a layout reply into menu entries: each raw
/// triple is an entry identifier, its label if the reply carried a text
/// one, and its type if the reply carried a text one. A missing label is
/// empty; an entry is a separator exactly when its type says so; unknown
/// types and missing fields are ignored.
pub fn decode_menu_entries(raw: Vec<(i32, Option<String>, Option<String>)>) -> (entries: Vec<
    MenuEntry,
>)
    ensures
        entries@.len() == raw@.len(),
        forall|i: int|
            0 <= i < raw@.len() ==> {
                &&& (#[trigger] entries@[i]).id == raw@[i].0
                &&& entries@[i].label@ == (match raw@[i].1 {
                    Some(l) => l@,
                    None => Seq::<char>::empty(),
                })
                &&& entries@[i].is_sep == (raw@[i].2 matches Some(t) && t@ == "separator"@)
            },
{
    let n = raw.len();
    let mut entries: Vec<MenuEntry> = Vec::new();
    let mut i: usize = 0;
    while i < n
        invariant
            i <= n,
            n == raw@.len(),
            entries@.len() == i,
            forall|j: int|
                0 <= j < i ==> {
                    &&& (#[trigger] entries@[j]).id == raw@[j].0
                    &&& entries@[j].label@ == (match raw@[j].1 {
                        Some(l) => l@,
                        None => Seq::<char>::empty(),
                    })
                    &&& entries@[j].is_sep == (raw@[j].2 matches Some(t) && t@ == "separator"@)
                },
        decreases n - i,
    {
        let id = raw[i].0;
        let label = match &raw[i].1 {
            Some(l) => l.clone(),
            None => String::new(),
        };
        let is_sep = match &raw[i].2 {
            Some(t) => *t == String::from_str("separator"),
            None => false,
        };
        entries.push(MenuEntry { id, is_sep, label });
        i = i + 1;
    }
    entries
}

/// A transient popup over one tray item: enough identity to render
/// independently and to route clicks back to the correct remote object.
/// `rendered_ids` records, per rendered labeled entry, the vertical
/// extent it occupies and its identifier, for hit-testing.
pub struct TrayPopup {
    pub owner: String,
    pub menu_path: String,
    pub title: String,
    pub rendered_ids: Vec<(u64, u64, i32)>,
}

impl TrayPopup {
    /// The size this popup needs, measured from the title size and the
    /// per-entry label sizes the font collaborator supplies (one per
    /// entry; the size given for a separator is ignored). On the first
    /// request the cache moves to fetching and the returned command asks
    /// the caller to start the one layout fetch; any later request
    /// returns no command.
    pub fn get_size(&self, cache: &mut MenuCache, title_w: u32, title_h: u32, sizes: &Vec<
        (u32, u32),
    >) -> (r: (u64, u64, Option<MenuFetch>))
        requires
            title_w <= MAX_TEXT,
            title_h <= MAX_TEXT,
            sizes@.len() == old(cache).entries@.len(),
            old(cache).entries@.len() <= MAX_ENTRIES,
            spec_sizes_wf(sizes@),
        ensures
            r.0 as int == spec_popup_width(title_w, old(cache).entries@, sizes@),
            r.1 as int == spec_popup_height(title_h, old(cache).entries@, sizes@),
            r.2 is Some <==> spec_fetch_triggered(old(cache).state),
            final(cache).state == spec_after_size_request(old(cache).state),
            final(cache).entries == old(cache).entries,
            final(cache).interested == old(cache).interested,
            r.2 matches Some(f) ==> f.owner@ == self.owner@ && f.menu_path@ == self.menu_path@,
    {
        let (w, h) = measure_menu(cache, title_w, title_h, sizes);
        let fetch = if matches!(cache.state, MenuState::Unfetched) {
            cache.state = MenuState::Fetching;
            Some(MenuFetch { owner: self.owner.clone(), menu_path: self.menu_path.clone() })
        } else {
            None
        };
        (w, h, fetch)
    }

    /// Lay the popup out top to bottom — title, divider if any entries
    /// exist, then each entry — recording the vertical extent and remote
    /// identifier of every labeled entry for hit-testing. Whoever renders
    /// registers interest in the cache, so the arrival of the layout
    /// repaints the popup; like a size request, a render of a popup whose
    /// cache is untouched starts the one fetch.
    pub fn render(&mut self, cache: &mut MenuCache, ctx: u64, title_w: u32, title_h: u32, sizes: &Vec<
        (u32, u32),
    >) -> (r: (u64, u64, Option<MenuFetch>))
        requires
            title_w <= MAX_TEXT,
            title_h <= MAX_TEXT,
            sizes@.len() == old(cache).entries@.len(),
            old(cache).entries@.len() <= MAX_ENTRIES,
            spec_sizes_wf(sizes@),
        ensures
            final(self).rendered_ids@ == spec_extents(
                old(cache).entries@,
                sizes@,
                POPUP_OFFSET + title_h + (if old(cache).entries@.len() > 0 {
                    SEP_GAP as int
                } else {
                    0int
                }),
            ),
            *final(self) == (TrayPopup { rendered_ids: final(self).rendered_ids, ..*old(self) }),
            r.0 as int == spec_popup_width(title_w, old(cache).entries@, sizes@),
            r.1 as int == spec_popup_height(title_h, old(cache).entries@, sizes@),
            r.2 is Some <==> spec_fetch_triggered(old(cache).state),
            final(cache).state == spec_after_size_request(old(cache).state),
            final(cache).entries == old(cache).entries,
            final(cache).interested.interested@ == (if old(cache).state is Unfetched {
                old(cache).interested.interested@
            } else {
                old(cache).interested.interested@.push(ctx)
            }),
            r.2 matches Some(f) ==> f.owner@ == old(self).owner@ && f.menu_path@ == old(
                self,
            ).menu_path@,
    {
        if !matches!(cache.state, MenuState::Unfetched) {
            cache.interested.add(ctx);
        }
        let ghost base = POPUP_OFFSET + title_h + (if cache.entries@.len() > 0 {
            SEP_GAP as int
        } else {
            0int
        });
        let n = cache.entries.len();
        let mut ids: Vec<(u64, u64, i32)> = Vec::new();
        let mut pos: u64 = POPUP_OFFSET + (title_h as u64) + (if n > 0 {
            SEP_GAP
        } else {
            0
        });
        let mut i: usize = 0;
        while i < n
            invariant
                i <= n,
                n == cache.entries@.len(),
                n <= MAX_ENTRIES,
                spec_sizes_wf(sizes@),
                title_h <= MAX_TEXT,
                sizes@.len() == n,
                base == POPUP_OFFSET + title_h + (if n > 0 {
                    SEP_GAP as int
                } else {
                    0int
                }),
                pos as int == base + spec_menu_height(
                    cache.entries@.take(i as int),
                    sizes@.take(i as int),
                ),
                spec_menu_height(cache.entries@.take(i as int), sizes@.take(i as int)) <= (
                i as int) * 0x80000004,
                spec_menu_height(cache.entries@.take(i as int), sizes@.take(i as int)) >= 0,
                ids@ == spec_extents(cache.entries@.take(i as int), sizes@.take(i as int), base),
            decreases n - i,
        {
            proof {
                assert(cache.entries@.take(i + 1).drop_last() =~= cache.entries@.take(i as int));
                assert(sizes@.take(i + 1).drop_last() =~= sizes@.take(i as int));
                assert(cache.entries@.take(i + 1).last() == cache.entries@[i as int]);
                assert(sizes@.take(i + 1)[i as int] == sizes@[i as int]);
            }
            if cache.entries[i].is_sep {
                pos = pos + SEP_GAP;
            } else {
                let h = sizes[i].1;
                let top = pos;
                let bottom = pos + (h as u64);
                ids.push((top, bottom, cache.entries[i].id));
                pos = bottom + LABEL_PAD;
            }
            i = i + 1;
        }
        proof {
            assert(cache.entries@.take(n as int) =~= cache.entries@);
            assert(sizes@.take(n as int) =~= sizes@);
        }
        self.rendered_ids = ids;
        let (w, h) = measure_menu(cache, title_w, title_h, sizes);
        let fetch = if matches!(cache.state, MenuState::Unfetched) {
            cache.state = MenuState::Fetching;
            Some(MenuFetch { owner: self.owner.clone(), menu_path: self.menu_path.clone() })
        } else {
            None
        };
        (w, h, fetch)
    }

    /// Resolve a click at vertical position `y`: the first recorded extent
    /// containing it yields the remote invocation to fire, stamped with
    /// the caller's millisecond timestamp; outside every extent the click
    /// is a no-op.
    pub fn button(&self, y: u64, timestamp_ms: u32) -> (r: Option<MenuClick>)
        ensures
            match r {
                Some(c) => spec_hit(self.rendered_ids@, y) == Some(c.entry_id) && c.owner@
                    == self.owner@ && c.menu_path@ == self.menu_path@ && c.timestamp_ms
                    == timestamp_ms,
                None => spec_hit(self.rendered_ids@, y) is None,
            },
    {
        let n = self.rendered_ids.len();
        let mut i: usize = 0;
        proof {
            assert(self.rendered_ids@.skip(0) =~= self.rendered_ids@);
        }
        while i < n
            invariant
                i <= n,
                n == self.rendered_ids@.len(),
                spec_hit(self.rendered_ids@, y) == spec_hit(
                    self.rendered_ids@.skip(i as int),
                    y,
                ),
            decreases n - i,
        {
            proof {
                assert(self.rendered_ids@.skip(i as int)[0] == self.rendered_ids@[i as int]);
                assert(self.rendered_ids@.skip(i as int).skip(1) =~= self.rendered_ids@.skip(
                    i + 1,
                ));
            }
            let (top, bottom, id) = self.rendered_ids[i];
            if y >= top && y <= bottom {
                return Some(
                    MenuClick {
                        owner: self.owner.clone(),
                        menu_path: self.menu_path.clone(),
                        entry_id: id,
                        timestamp_ms,
                    },
                );
            }
            i = i + 1;
        }
        None
    }
}

/// Measure the popup: greatest width among title and labels plus margin,
/// and the sum of the title height, the divider gap when entries exist,
/// every entry's contribution, and the margin.
fn measure_menu(cache: &MenuCache, title_w: u32, title_h: u32, sizes: &Vec<(u32, u32)>) -> (r: (
    u64,
    u64,
))
    requires
        title_w <= MAX_TEXT,
        title_h <= MAX_TEXT,
        sizes@.len() == cache.entries@.len(),
        cache.entries@.len() <= MAX_ENTRIES,
        spec_sizes_wf(sizes@),
    ensures
        r.0 as int == spec_popup_width(title_w, cache.entries@, sizes@),
        r.1 as int == spec_popup_height(title_h, cache.entries@, sizes@),
{
    let n = cache.entries.len();
    let mut w: u64 = title_w as u64;
    let mut h: u64 = (title_h as u64) + (if n > 0 {
        SEP_GAP
    } else {
        0
    });
    let ghost hbase = title_h + (if n > 0 {
        SEP_GAP as int
    } else {
        0int
    });
    let mut i: usize = 0;
    while i < n
        invariant
            i <= n,
            n == cache.entries@.len(),
            n <= MAX_ENTRIES,
            spec_sizes_wf(sizes@),
            title_w <= MAX_TEXT,
            title_h <= MAX_TEXT,
            sizes@.len() == n,
            hbase == title_h + (if n > 0 {
                SEP_GAP as int
            } else {
                0int
            }),
            w as int == (if title_w as int > spec_menu_width(
                cache.entries@.take(i as int),
                sizes@.take(i as int),
            ) {
                title_w as int
            } else {
                spec_menu_width(cache.entries@.take(i as int), sizes@.take(i as int))
            }),
            w <= MAX_TEXT,
            h as int == hbase + spec_menu_height(
                cache.entries@.take(i as int),
                sizes@.take(i as int),
            ),
            spec_menu_height(cache.entries@.take(i as int), sizes@.take(i as int)) <= (i as int)
                * 0x80000004,
            spec_menu_height(cache.entries@.take(i as int), sizes@.take(i as int)) >= 0,
        decreases n - i,
    {
        proof {
            assert(cache.entries@.take(i + 1).drop_last() =~= cache.entries@.take(i as int));
            assert(sizes@.take(i + 1).drop_last() =~= sizes@.take(i as int));
            assert(cache.entries@.take(i + 1).last() == cache.entries@[i as int]);
            assert(sizes@.take(i + 1)[i as int] == sizes@[i as int]);
        }
        if cache.entries[i].is_sep {
            h = h + SEP_GAP;
        } else {
            let (ew, eh) = sizes[i];
            if (ew as u64) > w {
                w = ew as u64;
            }
            h = h + (eh as u64) + LABEL_PAD;
        }
        i = i + 1;
    }
    proof {
        assert(cache.entries@.take(n as int) =~= cache.entries@);
        assert(sizes@.take(n as int) =~= sizes@);
    }
    (w + POPUP_MARGIN, h + POPUP_MARGIN)
}

} // verus!
