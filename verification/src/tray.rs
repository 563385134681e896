//! Tray directory: discovery and tracking of remote tray items.
//!
//! The directory maintains the live set of tray items, keyed by the pair
//! of bus owner identity and object path. Items are added on registration
//! signals and on the initial enumeration, mutated on property-change
//! signals, and removed on unregistration signals. Every add, remove and
//! update concludes by draining the directory's interest registry, so the
//! bar reflects the new tray contents on the next tick.
//!
//! The bus connection lives outside this crate: the functions here decide,
//! and return as plain values which subscriptions, fetches and invocations
//! the caller must perform.

use vstd::prelude::*;
use vstd::string::StringExecFns;
use crate::menu::MenuCache;
use crate::menu::TrayPopup;
use crate::notify::NotifierList;
use crate::text::find_char;
use crate::text::push_decimal;
use crate::text::spec_decimal;
use crate::text::spec_find_char;

verus! {

/// One remote application's tray presence, keyed by (owner, path). The
/// property fields fill up as change notifications and the initial fetch
/// arrive; the menu cache is populated lazily on first popup display.
pub struct TrayItem {
    pub owner: String,
    pub path: String,
    /// Which vendor namespace the item was discovered under.
    pub is_kde: bool,
    pub id: String,
    pub title: String,
    pub status: String,
    pub icon: String,
    pub icon_path: String,
    pub menu_path: String,
    pub menu: MenuCache,
}

/// The live set of tray items plus the interest registry of whoever
/// displayed them.
pub struct Tray {
    pub items: Vec<TrayItem>,
    pub interested: NotifierList,
}

/// Whether an item carries this key.
pub open spec fn spec_key_is(it: TrayItem, owner: Seq<char>, path: Seq<char>) -> bool {
    it.owner@ == owner && it.path@ == path
}

/// Whether some item in the list carries this key.
pub open spec fn spec_item_key_in(items: Seq<TrayItem>, owner: Seq<char>, path: Seq<char>) -> bool {
    exists|i: int| 0 <= i < items.len() && spec_key_is(#[trigger] items[i], owner, path)
}

/// The keys of the items, in order.
pub open spec fn spec_items_keys(items: Seq<TrayItem>) -> Seq<(Seq<char>, Seq<char>)> {
    items.map_values(|it: TrayItem| (it.owner@, it.path@))
}

/// A freshly constructed item record: the key and namespace are set, every
/// property is empty, and the menu cache is untouched.
pub open spec fn spec_fresh_item(
    it: TrayItem,
    owner: Seq<char>,
    path: Seq<char>,
    is_kde: bool,
) -> bool {
    &&& it.owner@ == owner
    &&& it.path@ == path
    &&& it.is_kde == is_kde
    &&& it.id@ == Seq::<char>::empty()
    &&& it.title@ == Seq::<char>::empty()
    &&& it.status@ == Seq::<char>::empty()
    &&& it.icon@ == Seq::<char>::empty()
    &&& it.icon_path@ == Seq::<char>::empty()
    &&& it.menu_path@ == Seq::<char>::empty()
    &&& it.menu.state is Unfetched
    &&& it.menu.entries@ == Seq::<crate::menu::MenuEntry>::empty()
    &&& it.menu.interested.interested@ == Seq::<u64>::empty()
}

/// Adding a key to the live set: a key already present replaces its record
/// in place, so the key list is unchanged; a new key is appended.
pub open spec fn spec_add_key(
    keys: Seq<(Seq<char>, Seq<char>)>,
    k: (Seq<char>, Seq<char>),
) -> Seq<(Seq<char>, Seq<char>)> {
    if keys.contains(k) {
        keys
    } else {
        keys.push(k)
    }
}

/// Removing a key from the live set: every record with it is dropped;
/// removing a key that is not present changes nothing.
pub open spec fn spec_remove_key(
    keys: Seq<(Seq<char>, Seq<char>)>,
    k: (Seq<char>, Seq<char>),
) -> Seq<(Seq<char>, Seq<char>)>
    decreases keys.len(),
{
    if keys.len() == 0 {
        keys
    } else {
        let front = spec_remove_key(keys.drop_last(), k);
        if keys.last() == k {
            front
        } else {
            front.push(keys.last())
        }
    }
}

/// The items left after removing a key.
pub open spec fn spec_remove_item(
    items: Seq<TrayItem>,
    owner: Seq<char>,
    path: Seq<char>,
) -> Seq<TrayItem>
    decreases items.len(),
{
    if items.len() == 0 {
        items
    } else {
        let front = spec_remove_item(items.drop_last(), owner, path);
        if spec_key_is(items.last(), owner, path) {
            front
        } else {
            front.push(items.last())
        }
    }
}

/// Removing items by key removes exactly their keys.
proof fn lemma_remove_item_keys(items: Seq<TrayItem>, owner: Seq<char>, path: Seq<char>)
    ensures
        spec_items_keys(spec_remove_item(items, owner, path)) == spec_remove_key(
            spec_items_keys(items),
            (owner, path),
        ),
    decreases items.len(),
{
    if items.len() == 0 {
        assert(spec_items_keys(spec_remove_item(items, owner, path)) =~= spec_remove_key(
            spec_items_keys(items),
            (owner, path),
        ));
    } else {
        lemma_remove_item_keys(items.drop_last(), owner, path);
        assert(spec_items_keys(items.drop_last()) =~= spec_items_keys(items).drop_last());
        if spec_key_is(items.last(), owner, path) {
            assert(spec_items_keys(items).last() == (owner, path));
        } else {
            assert(spec_items_keys(items).last() == (items.last().owner@, items.last().path@));
            assert(spec_items_keys(spec_remove_item(items, owner, path)) =~= spec_remove_key(
                spec_items_keys(items),
                (owner, path),
            ));
        }
    }
}

impl Tray {
    /// An empty directory: no items tracked, nobody interested yet.
    pub fn new() -> (r: Tray)
        ensures
            r.items@ == Seq::<TrayItem>::empty(),
            r.interested.interested@ == Seq::<u64>::empty(),
    {
        Tray { items: Vec::new(), interested: NotifierList::new() }
    }

    /// No two items share a key.
    pub open spec fn wf(self) -> bool {
        forall|i: int, j: int|
            0 <= i < j < self.items@.len() ==> !((#[trigger] self.items@[i]).owner@ == (
            #[trigger] self.items@[j]).owner@ && self.items@[i].path@ == self.items@[j].path@)
    }
}

/// Split an item address at its first slash into the bus owner identity
/// and the object path (which keeps the slash). An address without a
/// slash is malformed and yields nothing.
pub fn split_address(address: &String) -> (r: Option<(String, String)>)
    ensures
        match spec_find_char(address@, '/', 0) {
            Some(i) => r matches Some(pair) && pair.0@ == address@.subrange(0, i) && pair.1@
                == address@.subrange(i, address@.len() as int),
            None => r is None,
        },
{
    let s = address.as_str();
    let n = s.unicode_len();
    match find_char(s, '/', 0) {
        Some(k) => {
            let owner = s.substring_char(0, k).to_owned();
            let path = s.substring_char(k, n).to_owned();
            Some((owner, path))
        },
        None => None,
    }
}

/// The first item with this key, if any.
fn find_item_index(items: &Vec<TrayItem>, owner: &String, path: &String) -> (r: Option<usize>)
    ensures
        match r {
            Some(j) => 0 <= j < items@.len() && spec_key_is(items@[j as int], owner@, path@)
                && (forall|k: int|
                0 <= k < j ==> !spec_key_is(#[trigger] items@[k], owner@, path@)),
            None => forall|k: int|
                0 <= k < items@.len() ==> !spec_key_is(#[trigger] items@[k], owner@, path@),
        },
{
    let n = items.len();
    let mut i: usize = 0;
    while i < n
        invariant
            i <= n,
            n == items@.len(),
            forall|k: int| 0 <= k < i ==> !spec_key_is(#[trigger] items@[k], owner@, path@),
        decreases n - i,
    {
        if items[i].owner == *owner && items[i].path == *path {
            return Some(i);
        }
        i = i + 1;
    }
    None
}

/// The property fetch an added item asks the caller to perform: subscribe
/// to property-change notifications scoped to this sender and path, then
/// fetch the full property set of the item's status-notifier interface
/// once and hand it to [`handle_item_update`].
pub struct PropFetch {
    pub owner: String,
    pub path: String,
    pub is_kde: bool,
}

/// An item was registered (or enumerated at startup): parse its address,
/// publish a fresh record for it — a record with the same key is replaced
/// in place, never duplicated — and drain the interest registry. The
/// returned fetch must be performed by the caller; the record is already
/// visible, so a property change racing the fetch is not lost. A malformed
/// address changes nothing.
pub fn do_add_item(tray: &mut Tray, is_kde: bool, address: &String) -> (r: (
    Option<PropFetch>,
    Vec<u64>,
))
    ensures
        spec_find_char(address@, '/', 0) is None ==> *final(tray) == *old(tray) && r.0 is None
            && r.1@ == Seq::<u64>::empty(),
        (match spec_find_char(address@, '/', 0) {
            Some(i) => {
                let owner = address@.subrange(0, i);
                let path = address@.subrange(i, address@.len() as int);
                &&& r.0 matches Some(f) && f.owner@ == owner && f.path@ == path && f.is_kde
                    == is_kde
                &&& r.1@ == old(tray).interested.interested@
                &&& final(tray).interested.interested@ == Seq::<u64>::empty()
                &&& spec_items_keys(final(tray).items@) == spec_add_key(
                    spec_items_keys(old(tray).items@),
                    (owner, path),
                )
                &&& (if spec_item_key_in(old(tray).items@, owner, path) {
                    exists|j: int|
                        {
                            &&& 0 <= j < old(tray).items@.len()
                            &&& spec_key_is(#[trigger] old(tray).items@[j], owner, path)
                            &&& final(tray).items@.len() == old(tray).items@.len()
                            &&& spec_fresh_item(final(tray).items@[j], owner, path, is_kde)
                            &&& (forall|k: int|
                                0 <= k < old(tray).items@.len() && k != j
                                    ==> final(tray).items@[k] == old(tray).items@[k])
                        }
                } else {
                    &&& final(tray).items@.len() == old(tray).items@.len() + 1
                    &&& final(tray).items@.drop_last() == old(tray).items@
                    &&& spec_fresh_item(final(tray).items@.last(), owner, path, is_kde)
                })
            },
            None => true,
        }),
{
    let parts = split_address(address);
    match parts {
        None => (None, Vec::new()),
        Some((owner, path)) => {
            let idx = find_item_index(&tray.items, &owner, &path);
            let fresh = TrayItem {
                owner: owner.clone(),
                path: path.clone(),
                is_kde,
                id: String::new(),
                title: String::new(),
                status: String::new(),
                icon: String::new(),
                icon_path: String::new(),
                menu_path: String::new(),
                menu: MenuCache::new(),
            };
            match idx {
                Some(j) => {
                    tray.items[j] = fresh;
                    proof {
                        assert(spec_items_keys(tray.items@) =~= spec_items_keys(
                            old(tray).items@,
                        ));
                        assert(spec_items_keys(old(tray).items@)[j as int] == (owner@, path@));
                        assert(spec_items_keys(old(tray).items@).contains((owner@, path@)));
                    }
                },
                None => {
                    tray.items.push(fresh);
                    proof {
                        assert(spec_items_keys(tray.items@) =~= spec_items_keys(
                            old(tray).items@,
                        ).push((owner@, path@)));
                        if spec_items_keys(old(tray).items@).contains((owner@, path@)) {
                            let k = choose|k: int|
                                0 <= k < old(tray).items@.len() && spec_items_keys(
                                    old(tray).items@,
                                )[k] == (owner@, path@);
                            assert(spec_key_is(old(tray).items@[k], owner@, path@));
                        }
                        assert(tray.items@.drop_last() =~= old(tray).items@);
                    }
                },
            }
            let woken = tray.interested.notify_data();
            (Some(PropFetch { owner, path, is_kde }), woken)
        },
    }
}

/// An item was unregistered: drop every record matching the parsed key —
/// a key that is not tracked is a no-op — and drain the interest registry.
/// No cleanup is sent to the remote. A malformed address changes nothing.
pub fn do_del_item(tray: &mut Tray, address: &String) -> (woken: Vec<u64>)
    ensures
        spec_find_char(address@, '/', 0) is None ==> *final(tray) == *old(tray) && woken@
            == Seq::<u64>::empty(),
        (match spec_find_char(address@, '/', 0) {
            Some(i) => {
                let owner = address@.subrange(0, i);
                let path = address@.subrange(i, address@.len() as int);
                &&& final(tray).items@ == spec_remove_item(old(tray).items@, owner, path)
                &&& spec_items_keys(final(tray).items@) == spec_remove_key(
                    spec_items_keys(old(tray).items@),
                    (owner, path),
                )
                &&& woken@ == old(tray).interested.interested@
                &&& final(tray).interested.interested@ == Seq::<u64>::empty()
            },
            None => true,
        }),
{
    let parts = split_address(address);
    match parts {
        None => Vec::new(),
        Some((owner, path)) => {
            let n = tray.items.len();
            let mut rest = Vec::new();
            core::mem::swap(&mut rest, &mut tray.items);
            let ghost orig = rest@;
            let mut k: usize = 0;
            while k < n
                invariant
                    k <= n,
                    n == orig.len(),
                    rest@ == orig.skip(k as int),
                    tray.items@ == spec_remove_item(orig.take(k as int), owner@, path@),
                    tray.interested == old(tray).interested,
                decreases n - k,
            {
                proof {
                    assert(orig.take(k + 1).drop_last() =~= orig.take(k as int));
                    assert(orig.take(k + 1).last() == orig[k as int]);
                    assert(orig.skip(k as int)[0] == orig[k as int]);
                }
                let it = rest.remove(0);
                proof {
                    assert(rest@ =~= orig.skip(k + 1));
                }
                if !(it.owner == owner && it.path == path) {
                    tray.items.push(it);
                }
                k = k + 1;
            }
            proof {
                assert(orig.take(n as int) =~= orig);
                lemma_remove_item_keys(orig, owner@, path@);
            }
            tray.interested.notify_data()
        },
    }
}

/// One property applied to an item: a known name replaces the matching
/// field with the carried text; an unknown name, or a value the bus did
/// not carry as text, leaves the item unchanged.
pub open spec fn spec_apply_prop(it: TrayItem, p: (String, Option<String>)) -> TrayItem {
    match p.1 {
        None => it,
        Some(v) => if p.0@ == "Id"@ {
            TrayItem { id: v, ..it }
        } else if p.0@ == "Title"@ {
            TrayItem { title: v, ..it }
        } else if p.0@ == "Status"@ {
            TrayItem { status: v, ..it }
        } else if p.0@ == "IconName"@ {
            TrayItem { icon: v, ..it }
        } else if p.0@ == "IconThemePath"@ {
            TrayItem { icon_path: v, ..it }
        } else if p.0@ == "Menu"@ {
            TrayItem { menu_path: v, ..it }
        } else {
            it
        },
    }
}

/// A batch of properties applied in order.
pub open spec fn spec_apply_props(it: TrayItem, props: Seq<(String, Option<String>)>) -> TrayItem
    decreases props.len(),
{
    if props.len() == 0 {
        it
    } else {
        spec_apply_prop(spec_apply_props(it, props.drop_last()), props.last())
    }
}

/// What a property-change notification for this key does to one item:
/// a matching item takes the batch, any other is untouched.
pub open spec fn spec_item_updated(
    it: TrayItem,
    owner: Seq<char>,
    path: Seq<char>,
    props: Seq<(String, Option<String>)>,
) -> TrayItem {
    if spec_key_is(it, owner, path) {
        spec_apply_props(it, props)
    } else {
        it
    }
}

/// Apply a property batch to one item record.
fn apply_props_to_item(it: &mut TrayItem, props: &Vec<(String, Option<String>)>)
    ensures
        *final(it) == spec_apply_props(*old(it), props@),
{
    let n = props.len();
    let mut k: usize = 0;
    while k < n
        invariant
            k <= n,
            n == props@.len(),
            *it == spec_apply_props(*old(it), props@.take(k as int)),
        decreases n - k,
    {
        proof {
            assert(props@.take(k + 1).drop_last() =~= props@.take(k as int));
            assert(props@.take(k + 1).last() == props@[k as int]);
        }
        match &props[k].1 {
            Some(v) => {
                let key = &props[k].0;
                if *key == String::from_str("Id") {
                    it.id = v.clone();
                } else if *key == String::from_str("Title") {
                    it.title = v.clone();
                } else if *key == String::from_str("Status") {
                    it.status = v.clone();
                } else if *key == String::from_str("IconName") {
                    it.icon = v.clone();
                } else if *key == String::from_str("IconThemePath") {
                    it.icon_path = v.clone();
                } else if *key == String::from_str("Menu") {
                    it.menu_path = v.clone();
                }
            },
            None => {},
        }
        k = k + 1;
    }
    proof {
        assert(props@.take(n as int) =~= props@);
    }
}

/// A property-change notification arrived for this key: map the known
/// property names into the matching records' fields — unknown properties
/// and non-text values are skipped per field, never failing the whole
/// update; an update for an untracked key is a no-op — then drain the
/// interest registry.
pub fn handle_item_update(
    tray: &mut Tray,
    owner: &String,
    path: &String,
    props: &Vec<(String, Option<String>)>,
) -> (woken: Vec<u64>)
    ensures
        final(tray).items@.len() == old(tray).items@.len(),
        forall|i: int|
            0 <= i < old(tray).items@.len() ==> final(tray).items@[i] == spec_item_updated(
                old(tray).items@[i],
                owner@,
                path@,
                props@,
            ),
        woken@ == old(tray).interested.interested@,
        final(tray).interested.interested@ == Seq::<u64>::empty(),
{
    let n = tray.items.len();
    let mut i: usize = 0;
    while i < n
        invariant
            i <= n,
            n == tray.items@.len(),
            tray.items@.len() == old(tray).items@.len(),
            tray.interested == old(tray).interested,
            forall|j: int|
                0 <= j < i ==> tray.items@[j] == spec_item_updated(
                    old(tray).items@[j],
                    owner@,
                    path@,
                    props@,
                ),
            forall|j: int| i <= j < n ==> tray.items@[j] == old(tray).items@[j],
        decreases n - i,
    {
        if tray.items[i].owner == *owner && tray.items[i].path == *path {
            let ghost prev = tray.items@;
            let mut it = tray.items.remove(i);
            apply_props_to_item(&mut it, props);
            tray.items.insert(i, it);
            proof {
                assert(tray.items@ =~= prev.update(
                    i as int,
                    spec_apply_props(prev[i as int], props@),
                ));
            }
        }
        i = i + 1;
    }
    tray.interested.notify_data()
}

/// The status-notifier interface of one vendor namespace.
pub open spec fn spec_sni_interface(is_kde: bool) -> Seq<char> {
    if is_kde {
        "org.kde.StatusNotifierItem"@
    } else {
        "org.freedesktop.StatusNotifierItem"@
    }
}

/// The status-notifier interface name an item's properties live under.
pub fn sni_interface(is_kde: bool) -> (r: &'static str)
    ensures
        r@ == spec_sni_interface(is_kde),
{
    if is_kde {
        "org.kde.StatusNotifierItem"
    } else {
        "org.freedesktop.StatusNotifierItem"
    }
}

/// A property-change notification arrived, scoped broadly: it carries its
/// interface name, and only the two status-notifier interfaces are acted
/// on — anything else is ignored here, since the bus could not filter by
/// value for us.
pub fn handle_item_update_msg(
    tray: &mut Tray,
    sender: &String,
    path: &String,
    interface: &String,
    props: &Vec<(String, Option<String>)>,
) -> (woken: Vec<u64>)
    ensures
        (interface@ == spec_sni_interface(true) || interface@ == spec_sni_interface(false)) ==> {
            &&& final(tray).items@.len() == old(tray).items@.len()
            &&& (forall|i: int|
                0 <= i < old(tray).items@.len() ==> final(tray).items@[i] == spec_item_updated(
                    old(tray).items@[i],
                    sender@,
                    path@,
                    props@,
                ))
            &&& woken@ == old(tray).interested.interested@
            &&& final(tray).interested.interested@ == Seq::<u64>::empty()
        },
        !(interface@ == spec_sni_interface(true) || interface@ == spec_sni_interface(false))
            ==> *final(tray) == *old(tray) && woken@ == Seq::<u64>::empty(),
{
    if *interface == String::from_str("org.kde.StatusNotifierItem") || *interface
        == String::from_str("org.freedesktop.StatusNotifierItem") {
        handle_item_update(tray, sender, path, props)
    } else {
        Vec::new()
    }
}

/// What a logical click code means: the item method to invoke for primary
/// input, or the scroll direction for wheel input. Codes outside the table
/// mean nothing and are ignored.
pub open spec fn spec_click_method(how: u32) -> Option<(Seq<char>, Option<Seq<char>>)> {
    if how == 0 {
        Some(("Activate"@, None))
    } else if how == 1 {
        Some(("ContextMenu"@, None))
    } else if how == 2 {
        Some(("SecondaryActivate"@, None))
    } else if how == 5 || how == 6 {
        Some(("Scroll"@, Some("vertical"@)))
    } else if how == 7 || how == 8 {
        Some(("Scroll"@, Some("horizontal"@)))
    } else {
        None
    }
}

/// The remote invocation a click resolves to: fire `method` on the item's
/// object under its status-notifier interface. A scroll carries its
/// direction and a fixed delta; every other method takes two zero
/// arguments.
pub struct ClickCmd {
    pub owner: String,
    pub path: String,
    pub interface: String,
    pub method: String,
    pub scroll_direction: Option<String>,
    pub scroll_delta: i32,
}

/// A click arrived for the item with this key: map the click code to its
/// invocation, locate the item, and return the call to fire. A code
/// outside the table, or a key that is not tracked, is silently ignored.
pub fn do_click(tray: &Tray, owner: &String, path: &String, how: u32) -> (r: Option<ClickCmd>)
    ensures
        r is Some <==> (spec_click_method(how) is Some && spec_item_key_in(
            tray.items@,
            owner@,
            path@,
        )),
        r matches Some(cmd) ==> {
            &&& cmd.owner@ == owner@
            &&& cmd.path@ == path@
            &&& spec_click_method(how) matches Some(m) && cmd.method@ == m.0 && (match m.1 {
                Some(d) => cmd.scroll_direction matches Some(sd) && sd@ == d,
                None => cmd.scroll_direction is None,
            })
            &&& cmd.scroll_delta == 15
            &&& exists|i: int|
                0 <= i < tray.items@.len() && spec_key_is(
                    #[trigger] tray.items@[i],
                    owner@,
                    path@,
                ) && cmd.interface@ == spec_sni_interface(tray.items@[i].is_kde)
        },
{
    let method: &'static str;
    let mut direction: Option<String> = None;
    if how == 0 {
        method = "Activate";
    } else if how == 1 {
        method = "ContextMenu";
    } else if how == 2 {
        method = "SecondaryActivate";
    } else if how == 5 || how == 6 {
        method = "Scroll";
        direction = Some(String::from_str("vertical"));
    } else if how == 7 || how == 8 {
        method = "Scroll";
        direction = Some(String::from_str("horizontal"));
    } else {
        return None;
    }
    match find_item_index(&tray.items, owner, path) {
        Some(j) => {
            let interface = sni_interface(tray.items[j].is_kde).to_owned();
            Some(
                ClickCmd {
                    owner: owner.clone(),
                    path: path.clone(),
                    interface,
                    method: method.to_owned(),
                    scroll_direction: direction,
                    scroll_delta: 15,
                },
            )
        },
        None => None,
    }
}

/// What the renderer needs for one tray item: the icon sources to try in
/// order — themed vector image, themed raster image, then the raw icon
/// name — before falling back to drawing the title as text, the key to
/// route clicks with, and the popup descriptor for hovers.
pub struct ShowEntry {
    pub owner: String,
    pub path: String,
    pub title: String,
    pub icon_candidates: Vec<String>,
    pub popup: TrayPopup,
}

/// One rendering instruction matches one item.
pub open spec fn spec_show_entry_ok(e: ShowEntry, it: TrayItem) -> bool {
    &&& e.owner@ == it.owner@
    &&& e.path@ == it.path@
    &&& e.title@ == it.title@
    &&& e.popup.owner@ == it.owner@
    &&& e.popup.menu_path@ == it.menu_path@
    &&& e.popup.title@ == it.title@
    &&& e.popup.rendered_ids@ == Seq::<(u64, u64, i32)>::empty()
    &&& (if it.icon_path@.len() > 0 {
        &&& e.icon_candidates@.len() == 3
        &&& e.icon_candidates@[0]@ == it.icon_path@ + "/"@ + it.icon@ + ".svg"@
        &&& e.icon_candidates@[1]@ == it.icon_path@ + "/"@ + it.icon@ + ".png"@
        &&& e.icon_candidates@[2]@ == it.icon@
    } else {
        e.icon_candidates@.len() == 1 && e.icon_candidates@[0]@ == it.icon@
    })
}

/// Lay the tray out: register the caller's context so changes to the
/// directory repaint it, and return one rendering instruction per tracked
/// item, in order.
pub fn show(tray: &mut Tray, ctx: u64) -> (entries: Vec<ShowEntry>)
    ensures
        final(tray).items == old(tray).items,
        final(tray).interested.interested@ == old(tray).interested.interested@.push(ctx),
        entries@.len() == old(tray).items@.len(),
        forall|i: int|
            0 <= i < old(tray).items@.len() ==> spec_show_entry_ok(
                #[trigger] entries@[i],
                old(tray).items@[i],
            ),
{
    tray.interested.add(ctx);
    let n = tray.items.len();
    let mut entries: Vec<ShowEntry> = Vec::new();
    let mut i: usize = 0;
    while i < n
        invariant
            i <= n,
            n == tray.items@.len(),
            tray.items == old(tray).items,
            tray.interested.interested@ == old(tray).interested.interested@.push(ctx),
            entries@.len() == i,
            forall|j: int|
                0 <= j < i ==> spec_show_entry_ok(#[trigger] entries@[j], tray.items@[j]),
        decreases n - i,
    {
        let it = &tray.items[i];
        let mut candidates: Vec<String> = Vec::new();
        if !it.icon_path.as_str().is_empty() {
            let mut svg = it.icon_path.clone();
            svg.append("/");
            svg.append(it.icon.as_str());
            svg.append(".svg");
            candidates.push(svg);
            let mut png = it.icon_path.clone();
            png.append("/");
            png.append(it.icon.as_str());
            png.append(".png");
            candidates.push(png);
        }
        candidates.push(it.icon.clone());
        let entry = ShowEntry {
            owner: it.owner.clone(),
            path: it.path.clone(),
            title: it.title.clone(),
            icon_candidates: candidates,
            popup: TrayPopup {
                owner: it.owner.clone(),
                menu_path: it.menu_path.clone(),
                title: it.title.clone(),
                rendered_ids: Vec::new(),
            },
        };
        entries.push(entry);
        i = i + 1;
    }
    entries
}

/// The reply to a request for a uniquely owned bus name.
#[derive(Clone, Copy, PartialEq, Eq, Structural, Debug)]
pub enum NameReply {
    PrimaryOwner,
    InQueue,
    Exists,
    AlreadyOwner,
}

/// Startup decision for one vendor namespace: tray integration proceeds
/// only when the host name was granted as primary owner; any other reply
/// (or a failed request, passed as nothing) disables the namespace for
/// the process lifetime, with no retry.
pub fn host_registration_ok(reply: &Option<NameReply>) -> (r: bool)
    ensures
        r == (reply matches Some(NameReply::PrimaryOwner)),
{
    match reply {
        Some(NameReply::PrimaryOwner) => true,
        _ => false,
    }
}

/// The bus names one vendor namespace's startup uses: the host name this
/// process claims (suffixed with its process id), the watcher to register
/// with and subscribe to, its object path, and the registration method.
pub struct HostPlan {
    pub host_name: String,
    pub watcher_name: String,
    pub watcher_object: String,
    pub register_method: String,
}

/// The host-name prefix of one vendor namespace.
pub open spec fn spec_host_prefix(is_kde: bool) -> Seq<char> {
    if is_kde {
        "org.kde.StatusNotifierHost-"@
    } else {
        "org.freedesktop.StatusNotifierHost-"@
    }
}

/// The watcher bus name of one vendor namespace.
pub open spec fn spec_watcher_name(is_kde: bool) -> Seq<char> {
    if is_kde {
        "org.kde.StatusNotifierWatcher"@
    } else {
        "org.freedesktop.StatusNotifierWatcher"@
    }
}

/// Compute the names one namespace's startup needs: claim the host name,
/// subscribe to the watcher's registration signals, register as a host,
/// then fetch the current enumeration and add each entry as if freshly
/// registered.
pub fn init_plan(is_kde: bool, pid: u32) -> (r: HostPlan)
    ensures
        r.host_name@ == spec_host_prefix(is_kde) + spec_decimal(pid as int),
        r.watcher_name@ == spec_watcher_name(is_kde),
        r.watcher_object@ == "/StatusNotifierWatcher"@,
        r.register_method@ == "RegisterStatusNotifierHost"@,
{
    let mut host = if is_kde {
        String::from_str("org.kde.StatusNotifierHost-")
    } else {
        String::from_str("org.freedesktop.StatusNotifierHost-")
    };
    push_decimal(&mut host, pid);
    let watcher = if is_kde {
        String::from_str("org.kde.StatusNotifierWatcher")
    } else {
        String::from_str("org.freedesktop.StatusNotifierWatcher")
    };
    HostPlan {
        host_name: host,
        watcher_name: watcher,
        watcher_object: String::from_str("/StatusNotifierWatcher"),
        register_method: String::from_str("RegisterStatusNotifierHost"),
    }
}

/// What a watcher signal asks of the directory.
#[derive(Clone, Copy, PartialEq, Eq, Structural, Debug)]
pub enum WatcherSignal {
    Register,
    Unregister,
    Other,
}

/// Classify a watcher signal by its member name; anything but the two
/// registration members is ignored.
pub fn classify_watcher_member(member: &String) -> (r: WatcherSignal)
    ensures
        r == WatcherSignal::Register <==> member@ == "StatusNotifierItemRegistered"@,
        r == WatcherSignal::Unregister <==> member@ == "StatusNotifierItemUnregistered"@,
{
    proof {
        reveal_strlit("StatusNotifierItemRegistered");
        reveal_strlit("StatusNotifierItemUnregistered");
        assert("StatusNotifierItemRegistered"@.len() != "StatusNotifierItemUnregistered"@.len());
    }
    if *member == String::from_str("StatusNotifierItemRegistered") {
        WatcherSignal::Register
    } else if *member == String::from_str("StatusNotifierItemUnregistered") {
        WatcherSignal::Unregister
    } else {
        WatcherSignal::Other
    }
}

/// The keys after adding every well-formed address of an enumeration.
pub open spec fn spec_add_keys_all(
    keys: Seq<(Seq<char>, Seq<char>)>,
    addrs: Seq<String>,
) -> Seq<(Seq<char>, Seq<char>)>
    decreases addrs.len(),
{
    if addrs.len() == 0 {
        keys
    } else {
        let front = spec_add_keys_all(keys, addrs.drop_last());
        let a = addrs.last()@;
        match spec_find_char(a, '/', 0) {
            Some(i) => spec_add_key(front, (a.subrange(0, i), a.subrange(i, a.len() as int))),
            None => front,
        }
    }
}

/// How many addresses of an enumeration are well formed.
pub open spec fn spec_wf_addr_count(addrs: Seq<String>) -> int
    decreases addrs.len(),
{
    if addrs.len() == 0 {
        0
    } else {
        spec_wf_addr_count(addrs.drop_last()) + (match spec_find_char(addrs.last()@, '/', 0) {
            Some(i) => 1int,
            None => 0int,
        })
    }
}

/// The initial enumeration arrived: add every entry as if freshly
/// registered, in order, and return the property fetches to perform (one
/// per well-formed address) together with the interested parties drained
/// along the way.
pub fn add_enumerated(tray: &mut Tray, is_kde: bool, addrs: &Vec<String>) -> (r: (
    Vec<PropFetch>,
    Vec<u64>,
))
    ensures
        spec_items_keys(final(tray).items@) == spec_add_keys_all(
            spec_items_keys(old(tray).items@),
            addrs@,
        ),
        r.0@.len() == spec_wf_addr_count(addrs@),
        spec_wf_addr_count(addrs@) > 0 ==> r.1@ == old(tray).interested.interested@
            && final(tray).interested.interested@ == Seq::<u64>::empty(),
        spec_wf_addr_count(addrs@) == 0 ==> *final(tray) == *old(tray) && r.1@ == Seq::<
            u64,
        >::empty(),
{
    let n = addrs.len();
    let mut fetches: Vec<PropFetch> = Vec::new();
    let mut woken: Vec<u64> = Vec::new();
    let mut i: usize = 0;
    while i < n
        invariant
            i <= n,
            n == addrs@.len(),
            spec_items_keys(tray.items@) == spec_add_keys_all(
                spec_items_keys(old(tray).items@),
                addrs@.take(i as int),
            ),
            fetches@.len() == spec_wf_addr_count(addrs@.take(i as int)),
            spec_wf_addr_count(addrs@.take(i as int)) > 0 ==> woken@
                == old(tray).interested.interested@ && tray.interested.interested@ == Seq::<
                u64,
            >::empty(),
            spec_wf_addr_count(addrs@.take(i as int)) == 0 ==> *tray == *old(tray) && woken@
                == Seq::<u64>::empty(),
        decreases n - i,
    {
        proof {
            assert(addrs@.take(i + 1).drop_last() =~= addrs@.take(i as int));
            assert(addrs@.take(i + 1).last() == addrs@[i as int]);
        }
        let (fetch, mut drained) = do_add_item(tray, is_kde, &addrs[i]);
        match fetch {
            Some(f) => {
                fetches.push(f);
                woken.append(&mut drained);
                proof {
                    if woken@.len() > 0 {
                        assert(woken@ =~= old(tray).interested.interested@);
                    }
                    if woken@.len() == 0 {
                        assert(woken@ =~= Seq::<u64>::empty());
                        assert(woken@ =~= old(tray).interested.interested@);
                    }
                }
            },
            None => {},
        }
        i = i + 1;
    }
    proof {
        assert(addrs@.take(n as int) =~= addrs@);
    }
    (fetches, woken)
}

/// One replayed operation on the live set: registration or removal of a
/// key.
pub enum TrayOp {
    Add { owner: Seq<char>, path: Seq<char> },
    Remove { owner: Seq<char>, path: Seq<char> },
}

/// Replay of a sequence of operations on the ordered key list, exactly as
/// the directory maintains it: an add of a present key replaces in place
/// (the key list is unchanged), an add of a new key appends, a remove
/// drops the key wherever it stands.
pub open spec fn spec_replay_keys(
    keys: Seq<(Seq<char>, Seq<char>)>,
    ops: Seq<TrayOp>,
) -> Seq<(Seq<char>, Seq<char>)>
    decreases ops.len(),
{
    if ops.len() == 0 {
        keys
    } else {
        let front = spec_replay_keys(keys, ops.drop_last());
        match ops.last() {
            TrayOp::Add { owner, path } => spec_add_key(front, (owner, path)),
            TrayOp::Remove { owner, path } => spec_remove_key(front, (owner, path)),
        }
    }
}

/// Replay of the same operations on a plain set of keys.
pub open spec fn spec_replay_live(
    live: Set<(Seq<char>, Seq<char>)>,
    ops: Seq<TrayOp>,
) -> Set<(Seq<char>, Seq<char>)>
    decreases ops.len(),
{
    if ops.len() == 0 {
        live
    } else {
        let front = spec_replay_live(live, ops.drop_last());
        match ops.last() {
            TrayOp::Add { owner, path } => front.insert((owner, path)),
            TrayOp::Remove { owner, path } => front.remove((owner, path)),
        }
    }
}

/// No key occurs twice.
pub open spec fn spec_keys_unique(keys: Seq<(Seq<char>, Seq<char>)>) -> bool {
    forall|i: int, j: int| 0 <= i < j < keys.len() ==> keys[i] != keys[j]
}

/// Adding preserves uniqueness and acts as set insertion.
proof fn lemma_add_key_set(keys: Seq<(Seq<char>, Seq<char>)>, k: (Seq<char>, Seq<char>))
    requires
        spec_keys_unique(keys),
    ensures
        spec_keys_unique(spec_add_key(keys, k)),
        spec_add_key(keys, k).to_set() == keys.to_set().insert(k),
{
    broadcast use vstd::seq_lib::group_seq_properties;

    if keys.contains(k) {
        assert(keys.to_set().contains(k));
        assert(spec_add_key(keys, k).to_set() =~= keys.to_set().insert(k));
    } else {
        let pushed = keys.push(k);
        assert forall|i: int, j: int| 0 <= i < j < pushed.len() implies pushed[i] != pushed[j] by {
            if j < keys.len() {
            } else {
                assert(pushed[j] == k);
                assert(pushed[i] == keys[i]);
                assert(keys.contains(keys[i]));
            }
        }
        assert forall|x: (Seq<char>, Seq<char>)| pushed.to_set().contains(x) implies
            keys.to_set().insert(k).contains(x) by {
            let i = choose|i: int| 0 <= i < pushed.len() && pushed[i] == x;
            if i < keys.len() {
                assert(keys.contains(x));
            }
        }
        assert forall|x: (Seq<char>, Seq<char>)| keys.to_set().insert(k).contains(x) implies
            pushed.to_set().contains(x) by {
            if x == k {
                assert(pushed[keys.len() as int] == x);
                assert(pushed.contains(x));
            } else {
                assert(keys.contains(x));
                let i = choose|i: int| 0 <= i < keys.len() && keys[i] == x;
                assert(pushed[i] == x);
                assert(pushed.contains(x));
            }
        }
        assert(pushed.to_set() =~= keys.to_set().insert(k));
    }
}

/// Removing preserves uniqueness and acts as set removal.
proof fn lemma_remove_key_set(keys: Seq<(Seq<char>, Seq<char>)>, k: (Seq<char>, Seq<char>))
    requires
        spec_keys_unique(keys),
    ensures
        spec_keys_unique(spec_remove_key(keys, k)),
        spec_remove_key(keys, k).to_set() == keys.to_set().remove(k),
        !spec_remove_key(keys, k).contains(k),
        !keys.contains(k) ==> spec_remove_key(keys, k) == keys,
    decreases keys.len(),
{
    broadcast use vstd::seq_lib::group_seq_properties;

    if keys.len() == 0 {
        assert(spec_remove_key(keys, k).to_set() =~= keys.to_set().remove(k));
        assert(spec_remove_key(keys, k) =~= keys);
    } else {
        let front = keys.drop_last();
        assert forall|i: int, j: int| 0 <= i < j < front.len() implies front[i] != front[j] by {
            assert(keys[i] == front[i]);
            assert(keys[j] == front[j]);
        }
        lemma_remove_key_set(front, k);
        let rec = spec_remove_key(front, k);
        if keys.last() == k {
            assert(spec_remove_key(keys, k) == rec);
            assert forall|x: (Seq<char>, Seq<char>)| keys.to_set().remove(k).contains(x) implies
                rec.to_set().contains(x) by {
                assert(keys.contains(x));
                let i = choose|i: int| 0 <= i < keys.len() && keys[i] == x;
                if i < keys.len() - 1 {
                    assert(front[i] == x);
                    assert(front.contains(x));
                    assert(front.to_set().remove(k).contains(x));
                }
            }
            assert forall|x: (Seq<char>, Seq<char>)| rec.to_set().contains(x) implies
                keys.to_set().remove(k).contains(x) by {
                assert(front.to_set().remove(k).contains(x));
                assert(front.contains(x));
                let i = choose|i: int| 0 <= i < front.len() && front[i] == x;
                assert(keys[i] == x);
                assert(keys.contains(x));
            }
            assert(rec.to_set() =~= keys.to_set().remove(k));
        } else {
            let out = rec.push(keys.last());
            assert(spec_remove_key(keys, k) == out);
            assert forall|i: int, j: int| 0 <= i < j < out.len() implies out[i] != out[j] by {
                if j == out.len() - 1 {
                    assert(out[j] == keys.last());
                    assert(rec.contains(out[i]));
                    assert(rec.to_set().contains(out[i]));
                    assert(front.to_set().remove(k).contains(out[i]));
                    assert(front.contains(out[i]));
                    let fi = choose|fi: int| 0 <= fi < front.len() && front[fi] == out[i];
                    assert(keys[fi] == out[i]);
                    assert(keys[keys.len() - 1] == keys.last());
                }
            }
            assert forall|x: (Seq<char>, Seq<char>)| out.to_set().contains(x) implies
                keys.to_set().remove(k).contains(x) by {
                let i = choose|i: int| 0 <= i < out.len() && out[i] == x;
                if i < rec.len() {
                    assert(rec.contains(x));
                    assert(rec.to_set().contains(x));
                    assert(front.to_set().remove(k).contains(x));
                    assert(front.contains(x));
                    let fi = choose|fi: int| 0 <= fi < front.len() && front[fi] == x;
                    assert(keys[fi] == x);
                    assert(keys.contains(x));
                } else {
                    assert(x == keys.last());
                    assert(keys.contains(x));
                }
            }
            assert forall|x: (Seq<char>, Seq<char>)| keys.to_set().remove(k).contains(x) implies
                out.to_set().contains(x) by {
                assert(keys.contains(x));
                let i = choose|i: int| 0 <= i < keys.len() && keys[i] == x;
                if i < keys.len() - 1 {
                    assert(front[i] == x);
                    assert(front.contains(x));
                    assert(front.to_set().remove(k).contains(x));
                    assert(rec.to_set().contains(x));
                    assert(rec.contains(x));
                    let ri = choose|ri: int| 0 <= ri < rec.len() && rec[ri] == x;
                    assert(out[ri] == x);
                    assert(out.contains(x));
                } else {
                    assert(out[out.len() - 1] == x);
                    assert(out.contains(x));
                }
            }
            assert(out.to_set() =~= keys.to_set().remove(k));
        }
    }
}

/// Law: replaying any sequence of registrations and removals on an empty
/// directory leaves a key list whose set of keys equals the live set
/// computed by plain set insertion and removal, with no key duplicated —
/// an add of a present key replaces in place rather than duplicating, and
/// a remove of an absent key is a no-op (see
/// [`lemma_remove_key_set`]'s last clause, exposed through
/// [`lemma_remove_absent_key_noop`]).
pub proof fn lemma_directory_replay(ops: Seq<TrayOp>)
    ensures
        spec_keys_unique(spec_replay_keys(Seq::empty(), ops)),
        spec_replay_keys(Seq::empty(), ops).to_set() == spec_replay_live(Set::empty(), ops),
    decreases ops.len(),
{
    if ops.len() == 0 {
        assert(spec_replay_keys(Seq::<(Seq<char>, Seq<char>)>::empty(), ops).to_set()
            =~= spec_replay_live(Set::empty(), ops));
    } else {
        lemma_directory_replay(ops.drop_last());
        let front = spec_replay_keys(Seq::empty(), ops.drop_last());
        match ops.last() {
            TrayOp::Add { owner, path } => {
                lemma_add_key_set(front, (owner, path));
            },
            TrayOp::Remove { owner, path } => {
                lemma_remove_key_set(front, (owner, path));
            },
        }
    }
}

/// Law: removing a key that is not live is a no-op on the key list.
pub proof fn lemma_remove_absent_key_noop(
    keys: Seq<(Seq<char>, Seq<char>)>,
    k: (Seq<char>, Seq<char>),
)
    requires
        spec_keys_unique(keys),
        !keys.contains(k),
    ensures
        spec_remove_key(keys, k) == keys,
{
    lemma_remove_key_set(keys, k);
}

} // verus!
