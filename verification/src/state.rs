//! Application state: the bar surfaces, the runtime context, and the
//! render tick.
//!
//! A [`Bar`] is one drawable region bound to one compositor output; the
//! [`State`] owns every bar together with the [`Runtime`] (the named
//! variable and item tables plus the shared redraw signal and the wake
//! scheduler). External events — bus signals, compositor configure and
//! close events, the wake scheduler firing — all funnel into the one
//! redraw signal; the tick then recomputes observed data and plans the
//! repaint of every dirty surface.
//!
//! The compositor connection itself lives outside this crate: surfaces
//! are identified here by plain handles, and the tick returns a
//! [`PaintPlan`] describing exactly which byte range of the shared pixel
//! buffer each dirty surface must be drawn into and committed from.

use vstd::prelude::*;
use vstd::string::StringExecFns;
use crate::wake::WakeState;
use crate::wake::spec_merge;

verus! {

/// The largest width or height a bar surface may take. Dimensions come
/// from compositor configure events; bounding them keeps every byte-size
/// computation of the paint planner inside machine integers.
pub const MAX_DIM: u32 = 65535;

/// The per-bar placement taken from the configuration collaborator.
pub struct BarConfig {
    /// Restrict this bar to the output of this name; `None` matches every
    /// output.
    pub name: Option<String>,
    /// `"top"` anchors the bar to the top edge; anything else (including
    /// absence and unknown words) falls back to the bottom edge.
    pub side: Option<String>,
    /// Requested height in pixels; defaults to 20 when absent.
    pub size: Option<u32>,
}

/// How the compositor-side layer surface of a new bar must be configured.
#[derive(Clone, Copy, PartialEq, Eq, Structural, Debug)]
pub struct SurfaceParams {
    pub size: u32,
    pub anchor_top: bool,
    pub anchor_bottom: bool,
    pub anchor_left: bool,
    pub anchor_right: bool,
    pub exclusive_zone: u32,
}

/// A surface the caller must create with the compositor, identified by the
/// handle the bar record will carry.
#[derive(Clone, Copy, PartialEq, Eq, Structural, Debug)]
pub struct NewSurface {
    pub surface: u64,
    pub params: SurfaceParams,
}

/// Lifecycle of a bar surface: it exists unsized until the compositor
/// sends the first configure event; a closed surface is removed from the
/// set outright.
#[derive(Clone, Copy, PartialEq, Eq, Structural, Debug)]
pub enum BarLife {
    Created,
    Sized,
}

/// A single taskbar on a single output. The abstract content tree and the
/// accumulated event map it is rendered with belong to the item-rendering
/// collaborator and are keyed by the same surface handle outside this
/// crate.
#[derive(Clone, Copy, PartialEq, Eq, Structural, Debug)]
pub struct Bar {
    /// Identity of the compositor surface this bar draws to.
    pub surface: u64,
    pub width: u32,
    pub height: u32,
    /// True when the pixels are stale and must be repainted this tick.
    pub dirty: bool,
    pub life: BarLife,
}

impl Bar {
    /// Dimensions stay inside the bound the paint planner relies on.
    pub open spec fn wf(self) -> bool {
        self.width <= MAX_DIM && self.height <= MAX_DIM
    }
}

/// The surface parameters a bar configuration asks for.
pub open spec fn spec_surface_params(cfg: BarConfig) -> SurfaceParams {
    let size = match cfg.size {
        Some(z) => z,
        None => 20u32,
    };
    let top = match cfg.side {
        Some(s) => s@ == "top"@,
        None => false,
    };
    SurfaceParams {
        size,
        anchor_top: top,
        anchor_bottom: !top,
        anchor_left: true,
        anchor_right: true,
        exclusive_zone: size,
    }
}

/// Decide size and anchoring for one bar configuration: `"top"` anchors to
/// the top edge, anything else to the bottom; either way the bar spans the
/// full width and reserves its height as an exclusive zone.
pub fn surface_params(cfg: &BarConfig) -> (r: SurfaceParams)
    ensures
        r == spec_surface_params(*cfg),
{
    let size: u32 = match &cfg.size {
        Some(z) => *z,
        None => 20,
    };
    let top: bool = match &cfg.side {
        Some(s) => *s == String::from_str("top"),
        None => false,
    };
    SurfaceParams {
        size,
        anchor_top: top,
        anchor_bottom: !top,
        anchor_left: true,
        anchor_right: true,
        exclusive_zone: size,
    }
}

/// Whether a bar configuration applies to the output of the given name.
pub open spec fn spec_cfg_matches(cfg: BarConfig, name: Seq<char>) -> bool {
    match cfg.name {
        Some(n) => n@ == name,
        None => true,
    }
}

/// The value the named-variable table holds for `name`: the first entry
/// with that key, searched front to back (keys are unique, so at most one
/// exists).
pub open spec fn spec_var_lookup(entries: Seq<(String, String)>, name: Seq<char>) -> Option<
    String,
>
    decreases entries.len(),
{
    if entries.len() == 0 {
        None
    } else if entries[0].0@ == name {
        Some(entries[0].1)
    } else {
        spec_var_lookup(entries.skip(1), name)
    }
}

/// The entries left after dropping every one keyed by `name`.
pub open spec fn spec_entries_remove(
    entries: Seq<(String, String)>,
    name: Seq<char>,
) -> Seq<(String, String)>
    decreases entries.len(),
{
    if entries.len() == 0 {
        entries
    } else {
        let front = spec_entries_remove(entries.drop_last(), name);
        if entries.last().0@ == name {
            front
        } else {
            front.push(entries.last())
        }
    }
}

/// Inserting into the named-variable table: the entry of a key already
/// present is dropped and the new pair is appended at the back of the
/// order, so the table keeps one entry per key.
pub open spec fn spec_var_insert(
    entries: Seq<(String, String)>,
    name: String,
    value: String,
) -> Seq<(String, String)> {
    spec_entries_remove(entries, name@).push((name, value))
}

/// Replay of a list of insertions on the named-variable table.
pub open spec fn spec_var_insert_all(
    entries: Seq<(String, String)>,
    adds: Seq<(String, String)>,
) -> Seq<(String, String)>
    decreases adds.len(),
{
    if adds.len() == 0 {
        entries
    } else {
        spec_var_insert(
            spec_var_insert_all(entries, adds.drop_last()),
            adds.last().0,
            adds.last().1,
        )
    }
}

#[verifier::external_type_specification]
#[verifier::external_body]
#[verifier::reject_recursive_types(K)]
#[verifier::reject_recursive_types(V)]
#[verifier::reject_recursive_types(S)]
pub struct ExLinkedHashMap<K, V, S>(linked_hash_map::LinkedHashMap<K, V, S>);

/// What the named-variable table holds: its entries in insertion order.
pub uninterp spec fn linked_entries(m: linked_hash_map::LinkedHashMap<String, String>) -> Seq<
    (String, String),
>;

/// Relies on linked_hash_map::LinkedHashMap::new: a new map has no
/// entries.
#[verifier::external_body]
fn vars_new() -> (m: linked_hash_map::LinkedHashMap<String, String>)
    ensures
        linked_entries(m) == Seq::<(String, String)>::empty(),
{
    linked_hash_map::LinkedHashMap::new()
}

/// Relies on linked_hash_map::LinkedHashMap::insert: a present key's
/// entry is detached and the new pair re-attached at the back of the
/// iteration order; a new key is attached at the back as well.
#[verifier::external_body]
fn vars_insert(m: &mut linked_hash_map::LinkedHashMap<String, String>, k: String, v: String)
    ensures
        linked_entries(*final(m)) == spec_entries_remove(
            linked_entries(*old(m)),
            k@,
        ).push((k, v)),
{
    m.insert(k, v);
}

/// Relies on linked_hash_map::LinkedHashMap::get: the value stored under
/// a key equal to `k`, and nothing for an absent key.
#[verifier::external_body]
fn vars_get<'a>(m: &'a linked_hash_map::LinkedHashMap<String, String>, k: &String) -> (r: Option<
    &'a String,
>)
    ensures
        match r {
            Some(v) => spec_var_lookup(linked_entries(*m), k@) == Some(*v),
            None => spec_var_lookup(linked_entries(*m), k@) is None,
        },
{
    m.get(k)
}

/// Relies on linked_hash_map::LinkedHashMap::iter: the entries in
/// insertion order, each copied out as plain text.
#[verifier::external_body]
fn vars_entry_list(m: &linked_hash_map::LinkedHashMap<String, String>) -> (r: Vec<
    (String, String),
>)
    ensures
        r@ == linked_entries(*m),
{
    m.iter().map(|(k, v)| (k.clone(), v.clone())).collect()
}

/// Common state available while recomputing and rendering: the ordered
/// named-variable table, the named-item table, the shared redraw signal
/// and the wake scheduler. Exactly one runtime context exists per process;
/// `id` is the handle interest registries store for it.
pub struct Runtime {
    /// Handle under which this context registers interest in changing data.
    pub id: u64,
    /// Named-variable table: insertion-ordered, keys unique. The value is
    /// the variable's current text; how a variable computes it belongs to
    /// the data collaborator.
    pub vars: linked_hash_map::LinkedHashMap<String, String>,
    /// Names of the configured items; their content trees live with the
    /// item-rendering collaborator.
    pub items: Vec<String>,
    /// The shared redraw signal: true while a redraw request is pending.
    pub redraw: bool,
    /// The wake scheduler.
    pub wake: WakeState,
}

impl Runtime {
    /// The named-variable table's entries, in insertion order.
    pub open spec fn vars_entries(self) -> Seq<(String, String)> {
        linked_entries(self.vars)
    }

    /// Ask the wake scheduler to fire no later than `wake` (milliseconds on
    /// the caller's monotonic clock); a pending earlier deadline wins.
    pub fn set_wake_at(&mut self, wake: u64)
        ensures
            final(self).wake.deadline == spec_merge(old(self).wake.deadline, wake),
            *final(self) == (Runtime { wake: final(self).wake, ..*old(self) }),
    {
        self.wake.set_wake_at(wake);
    }

    /// The current text of the named variable, if the table has it.
    pub fn var_value(&self, name: &String) -> (r: Option<&String>)
        ensures
            match r {
                Some(v) => spec_var_lookup(self.vars_entries(), name@) == Some(*v),
                None => spec_var_lookup(self.vars_entries(), name@) is None,
            },
    {
        vars_get(&self.vars, name)
    }

    /// Insert a named variable: the table keeps one entry per key, and
    /// the inserted pair stands at the back of the order.
    pub fn insert_var(&mut self, name: String, value: String)
        ensures
            final(self).vars_entries() == spec_var_insert(old(self).vars_entries(), name, value),
            *final(self) == (Runtime { vars: final(self).vars, ..*old(self) }),
    {
        vars_insert(&mut self.vars, name, value);
    }

    /// The table's entries, in order, copied out for iteration.
    pub fn vars_list(&self) -> (r: Vec<(String, String)>)
        ensures
            r@ == self.vars_entries(),
    {
        vars_entry_list(&self.vars)
    }

    /// Deliver a batch of wakeups drained from an interest registry: if
    /// this context is among them, a redraw becomes pending.
    pub fn deliver_wakes(&mut self, woken: &Vec<u64>)
        ensures
            final(self).redraw == (old(self).redraw || woken@.contains(old(self).id)),
            *final(self) == (Runtime { redraw: final(self).redraw, ..*old(self) }),
    {
        let n = woken.len();
        let mut i: usize = 0;
        while i < n
            invariant
                i <= n,
                n == woken@.len(),
                self.redraw == (old(self).redraw || woken@.take(i as int).contains(old(self).id)),
                *self == (Runtime { redraw: self.redraw, ..*old(self) }),
            decreases n - i,
        {
            if woken[i] == self.id {
                self.redraw = true;
            }
            proof {
                let w = woken@;
                let me = old(self).id;
                assert(w.take(i + 1).drop_last() =~= w.take(i as int));
                if w[i as int] == me {
                    assert(w.take(i + 1)[i as int] == me);
                } else {
                    if w.take(i + 1).contains(me) {
                        let k = choose|k: int|
                            0 <= k < w.take(i + 1).len() && #[trigger] w.take(i + 1)[k] == me;
                        if k < i {
                            assert(w.take(i as int)[k] == me);
                        }
                    }
                }
                if w.take(i as int).contains(me) {
                    let k = choose|k: int| 0 <= k < i && #[trigger] w.take(i as int)[k] == me;
                    assert(w.take(i + 1)[k] == me);
                }
            }
            i = i + 1;
        }
        proof {
            assert(woken@.take(n as int) =~= woken@);
        }
    }
}

/// Whether a list of names already holds one with this text.
pub open spec fn spec_name_in(names: Seq<String>, name: Seq<char>) -> bool {
    exists|j: int| 0 <= j < names.len() && names[j]@ == name
}

/// The named-item table built from the configured names: first occurrence
/// of each name wins, later repetitions are dropped.
pub open spec fn spec_dedup_names(names: Seq<String>) -> Seq<String>
    decreases names.len(),
{
    if names.len() == 0 {
        names
    } else {
        let front = spec_dedup_names(names.drop_last());
        if spec_name_in(front, names.last()@) {
            front
        } else {
            front.push(names.last())
        }
    }
}

/// Helper for name matching against the item table.
fn contains_name(names: &Vec<String>, name: &String) -> (r: bool)
    ensures
        r == spec_name_in(names@, name@),
{
    let n = names.len();
    let mut i: usize = 0;
    while i < n
        invariant
            i <= n,
            n == names@.len(),
            forall|j: int| 0 <= j < i ==> names@[j]@ != name@,
        decreases n - i,
    {
        if names[i] == *name {
            return true;
        }
        i = i + 1;
    }
    false
}

/// Whether this bar configuration applies to the output of this name.
pub fn cfg_matches(cfg: &BarConfig, output_name: &String) -> (r: bool)
    ensures
        r == spec_cfg_matches(*cfg, output_name@),
{
    match &cfg.name {
        Some(n) => *n == *output_name,
        None => true,
    }
}

/// The byte size of one bar's pixels in the shared buffer for this tick:
/// zero when it is clean, else rows times the row stride of a 32-bit
/// ARGB image (four bytes per pixel).
pub open spec fn spec_bar_bytes(b: Bar) -> int {
    if b.dirty {
        (b.height as int) * (4 * (b.width as int))
    } else {
        0
    }
}

/// Total byte size of all dirty bars, in bar order.
pub open spec fn spec_dirty_total(bars: Seq<Bar>) -> int
    decreases bars.len(),
{
    if bars.len() == 0 {
        0
    } else {
        spec_dirty_total(bars.drop_last()) + spec_bar_bytes(bars.last())
    }
}

/// How many bars are dirty.
pub open spec fn spec_dirty_count(bars: Seq<Bar>) -> int
    decreases bars.len(),
{
    if bars.len() == 0 {
        0
    } else {
        spec_dirty_count(bars.drop_last()) + if bars.last().dirty {
            1int
        } else {
            0int
        }
    }
}

/// One sub-range of the shared pixel buffer, to be drawn, wrapped in a
/// compositor buffer, attached, damaged in full and committed.
#[derive(Clone, Copy, PartialEq, Eq, Structural, Debug)]
pub struct PaintSegment {
    pub surface: u64,
    /// Byte offset of this bar's range in the shared buffer.
    pub pos: u64,
    /// Byte length of the range.
    pub len: u64,
    pub width: u32,
    pub height: u32,
    /// Row stride in bytes of the 32-bit ARGB image.
    pub stride: u32,
}

/// The segments of one paint pass: one per dirty bar, in bar order, packed
/// back to back from offset zero.
pub open spec fn spec_segments(bars: Seq<Bar>) -> Seq<PaintSegment>
    decreases bars.len(),
{
    if bars.len() == 0 {
        Seq::empty()
    } else {
        let front = spec_segments(bars.drop_last());
        let b = bars.last();
        if b.dirty {
            front.push(
                PaintSegment {
                    surface: b.surface,
                    pos: spec_dirty_total(bars.drop_last()) as u64,
                    len: spec_bar_bytes(b) as u64,
                    width: b.width,
                    height: b.height,
                    stride: (4 * (b.width as int)) as u32,
                },
            )
        } else {
            front
        }
    }
}

/// The bars after a paint pass: every dirty flag cleared.
pub open spec fn spec_clear_dirty(bars: Seq<Bar>) -> Seq<Bar> {
    bars.map_values(|b: Bar| Bar { dirty: false, ..b })
}

/// The bars after the update phase of a tick: every bar marked dirty.
pub open spec fn spec_all_dirty(bars: Seq<Bar>) -> Seq<Bar> {
    bars.map_values(|b: Bar| Bar { dirty: true, ..b })
}

/// One bar after a configure event for `surface`: a bar bound to that
/// surface takes the negotiated size, becomes sized and dirty; every
/// other bar is untouched.
pub open spec fn spec_configured(b: Bar, surface: u64, width: u32, height: u32) -> Bar {
    if b.surface == surface {
        Bar { width, height, dirty: true, life: BarLife::Sized, ..b }
    } else {
        b
    }
}

/// The bars left after the compositor closed `surface`.
pub open spec fn spec_remove_surface(bars: Seq<Bar>, surface: u64) -> Seq<Bar>
    decreases bars.len(),
{
    if bars.len() == 0 {
        bars
    } else {
        let front = spec_remove_surface(bars.drop_last(), surface);
        if bars.last().surface == surface {
            front
        } else {
            front.push(bars.last())
        }
    }
}

/// How many of the configurations apply to this output.
pub open spec fn spec_match_count(cfgs: Seq<BarConfig>, name: Seq<char>) -> int
    decreases cfgs.len(),
{
    if cfgs.len() == 0 {
        0
    } else {
        spec_match_count(cfgs.drop_last(), name) + if spec_cfg_matches(cfgs.last(), name) {
            1int
        } else {
            0int
        }
    }
}

/// The bar records created for an output, numbering surfaces from `first`.
pub open spec fn spec_created_bars(cfgs: Seq<BarConfig>, name: Seq<char>, first: int) -> Seq<Bar>
    decreases cfgs.len(),
{
    if cfgs.len() == 0 {
        Seq::empty()
    } else {
        let front = spec_created_bars(cfgs.drop_last(), name, first);
        if spec_cfg_matches(cfgs.last(), name) {
            front.push(
                Bar {
                    surface: (first + spec_match_count(cfgs.drop_last(), name)) as u64,
                    width: 0,
                    height: 0,
                    dirty: false,
                    life: BarLife::Created,
                },
            )
        } else {
            front
        }
    }
}

/// The compositor surfaces the caller must create for an output.
pub open spec fn spec_created_surfaces(
    cfgs: Seq<BarConfig>,
    name: Seq<char>,
    first: int,
) -> Seq<NewSurface>
    decreases cfgs.len(),
{
    if cfgs.len() == 0 {
        Seq::empty()
    } else {
        let front = spec_created_surfaces(cfgs.drop_last(), name, first);
        if spec_cfg_matches(cfgs.last(), name) {
            front.push(
                NewSurface {
                    surface: (first + spec_match_count(cfgs.drop_last(), name)) as u64,
                    params: spec_surface_params(cfgs.last()),
                },
            )
        } else {
            front
        }
    }
}

/// The byte size of every bar is nonnegative.
proof fn lemma_bar_bytes_nonneg(b: Bar)
    ensures
        spec_bar_bytes(b) >= 0,
{
    assert((b.height as int) * (4 * (b.width as int)) >= 0) by (nonlinear_arith)
        requires
            b.height as int >= 0,
            b.width as int >= 0,
    ;
}

/// A prefix of the bars never needs more bytes than all of them.
proof fn lemma_dirty_total_take_le(bars: Seq<Bar>, i: int)
    requires
        0 <= i <= bars.len(),
    ensures
        spec_dirty_total(bars.take(i)) <= spec_dirty_total(bars),
    decreases bars.len(),
{
    if i == bars.len() {
        assert(bars.take(i) =~= bars);
    } else {
        lemma_bar_bytes_nonneg(bars.last());
        lemma_dirty_total_take_le(bars.drop_last(), i);
        assert(bars.drop_last().take(i) =~= bars.take(i));
    }
}

/// The plan of one render tick's paint phase.
pub struct PaintPlan {
    /// Exact size in bytes the shared pixel buffer must be resized to.
    pub total: u64,
    /// One entry per surface to draw and commit, in presentation order.
    pub segments: Vec<PaintSegment>,
}

/// What the configuration collaborator hands over at startup.
pub struct Config {
    /// Named variables with their initial text, in configuration order.
    pub vars: Vec<(String, String)>,
    /// Names of the configured items.
    pub items: Vec<String>,
    /// One entry per configured bar.
    pub bars: Vec<BarConfig>,
}

/// The top-level coordinator: the set of bar surfaces, the runtime
/// context, and the bar configurations used when outputs become ready.
pub struct State {
    pub bars: Vec<Bar>,
    pub runtime: Runtime,
    pub bar_configs: Vec<BarConfig>,
    /// Next unused surface handle.
    pub next_surface: u64,
}

impl State {
    /// All bar dimensions are inside the paint planner's bound.
    pub open spec fn bars_wf(self) -> bool {
        forall|i: int| 0 <= i < self.bars@.len() ==> (#[trigger] self.bars@[i]).wf()
    }

    /// Build the process-wide state from the parsed configuration: the
    /// named-variable table is filled in order (a repeated name keeps its
    /// first position and takes the later value), the item table drops
    /// repeated names, and no bars exist until an output is ready.
    pub fn new(config: Config, ctx: u64) -> (s: State)
        ensures
            s.runtime.id == ctx,
            s.runtime.vars_entries() == spec_var_insert_all(Seq::empty(), config.vars@),
            s.runtime.items@ == spec_dedup_names(config.items@),
            !s.runtime.redraw,
            s.runtime.wake.deadline is None,
            !s.runtime.wake.signaled,
            s.bars@ == Seq::<Bar>::empty(),
            s.bar_configs@ == config.bars@,
            s.next_surface == 1,
    {
        let Config { vars, items, bars } = config;
        let mut rt = Runtime {
            id: ctx,
            vars: vars_new(),
            items: Vec::new(),
            redraw: false,
            wake: WakeState::new(),
        };
        let n = vars.len();
        let mut i: usize = 0;
        while i < n
            invariant
                i <= n,
                n == vars@.len(),
                rt.vars_entries() == spec_var_insert_all(Seq::empty(), vars@.take(i as int)),
                rt.id == ctx,
                rt.items@ == Seq::<String>::empty(),
                !rt.redraw,
                rt.wake.deadline is None,
                !rt.wake.signaled,
            decreases n - i,
        {
            let name = vars[i].0.clone();
            let value = vars[i].1.clone();
            proof {
                assert(vars@.take(i + 1).drop_last() =~= vars@.take(i as int));
                assert(vars@.take(i + 1).last() == vars@[i as int]);
            }
            rt.insert_var(name, value);
            i = i + 1;
        }
        proof {
            assert(vars@.take(n as int) =~= vars@);
        }
        let m = items.len();
        let mut j: usize = 0;
        let mut names: Vec<String> = Vec::new();
        while j < m
            invariant
                j <= m,
                m == items@.len(),
                names@ == spec_dedup_names(items@.take(j as int)),
            decreases m - j,
        {
            proof {
                assert(items@.take(j + 1).drop_last() =~= items@.take(j as int));
                assert(items@.take(j + 1).last() == items@[j as int]);
            }
            if !contains_name(&names, &items[j]) {
                names.push(items[j].clone());
            }
            j = j + 1;
        }
        proof {
            assert(items@.take(m as int) =~= items@);
        }
        rt.items = names;
        State { bars: Vec::new(), runtime: rt, bar_configs: bars, next_surface: 1 }
    }

    /// Ask for a redraw: the shared signal becomes pending and the next
    /// tick will run.
    pub fn request_draw(&mut self)
        ensures
            *final(self) == (State { runtime: final(self).runtime, ..*old(self) }),
            final(self).runtime == (Runtime { redraw: true, ..old(self).runtime }),
    {
        self.runtime.redraw = true;
    }

    /// Consume the pending redraw signal, if any: the tick runner calls
    /// this before each pass.
    pub fn take_redraw(&mut self) -> (was: bool)
        ensures
            was == old(self).runtime.redraw,
            *final(self) == (State { runtime: final(self).runtime, ..*old(self) }),
            final(self).runtime == (Runtime { redraw: false, ..old(self).runtime }),
    {
        let was = self.runtime.redraw;
        self.runtime.redraw = false;
        was
    }

    /// An output became ready: create one bar per configuration that
    /// applies to it (a configuration without a name applies to every
    /// output). The returned list tells the caller which compositor
    /// surfaces to create and how to configure each; the new bars start
    /// unsized and clean.
    pub fn output_ready(&mut self, output_name: &String) -> (created: Vec<NewSurface>)
        requires
            old(self).next_surface + old(self).bar_configs@.len() <= u64::MAX,
        ensures
            final(self).bars@ == old(self).bars@ + spec_created_bars(
                old(self).bar_configs@,
                output_name@,
                old(self).next_surface as int,
            ),
            created@ == spec_created_surfaces(
                old(self).bar_configs@,
                output_name@,
                old(self).next_surface as int,
            ),
            final(self).next_surface == old(self).next_surface + spec_match_count(
                old(self).bar_configs@,
                output_name@,
            ),
            *final(self) == (State {
                bars: final(self).bars,
                next_surface: final(self).next_surface,
                ..*old(self)
            }),
    {
        let ghost first = old(self).next_surface as int;
        let ghost name = output_name@;
        let n = self.bar_configs.len();
        let mut created: Vec<NewSurface> = Vec::new();
        let mut i: usize = 0;
        while i < n
            invariant
                i <= n,
                n == self.bar_configs@.len(),
                self.bar_configs == old(self).bar_configs,
                self.runtime == old(self).runtime,
                first == old(self).next_surface as int,
                name == output_name@,
                first + n <= u64::MAX,
                0 <= spec_match_count(self.bar_configs@.take(i as int), name) <= i,
                self.next_surface as int == first + spec_match_count(
                    self.bar_configs@.take(i as int),
                    name,
                ),
                self.bars@ == old(self).bars@ + spec_created_bars(
                    self.bar_configs@.take(i as int),
                    name,
                    first,
                ),
                created@ == spec_created_surfaces(self.bar_configs@.take(i as int), name, first),
            decreases n - i,
        {
            proof {
                assert(self.bar_configs@.take(i + 1).drop_last() =~= self.bar_configs@.take(
                    i as int,
                ));
                assert(self.bar_configs@.take(i + 1).last() == self.bar_configs@[i as int]);
            }
            if cfg_matches(&self.bar_configs[i], output_name) {
                let params = surface_params(&self.bar_configs[i]);
                let id = self.next_surface;
                self.next_surface = self.next_surface + 1;
                created.push(NewSurface { surface: id, params });
                self.bars.push(
                    Bar { surface: id, width: 0, height: 0, dirty: false, life: BarLife::Created },
                );
            }
            i = i + 1;
        }
        proof {
            assert(self.bar_configs@.take(n as int) =~= self.bar_configs@);
        }
        created
    }

    /// A configure event arrived for `surface`: every bar bound to it
    /// takes the negotiated size, becomes sized, and is marked dirty, and
    /// a redraw is requested so the new size is painted promptly. The
    /// caller acknowledges the configure exactly when a bar matched.
    /// Dimensions beyond [`MAX_DIM`] must be rejected by the caller.
    pub fn handle_configure(&mut self, surface: u64, width: u32, height: u32) -> (matched: bool)
        requires
            width <= MAX_DIM,
            height <= MAX_DIM,
        ensures
            final(self).bars@.len() == old(self).bars@.len(),
            forall|i: int|
                0 <= i < old(self).bars@.len() ==> final(self).bars@[i] == spec_configured(
                    old(self).bars@[i],
                    surface,
                    width,
                    height,
                ),
            matched == (exists|i: int|
                0 <= i < old(self).bars@.len() && old(self).bars@[i].surface == surface),
            *final(self) == (State {
                bars: final(self).bars,
                runtime: final(self).runtime,
                ..*old(self)
            }),
            final(self).runtime == (Runtime { redraw: true, ..old(self).runtime }),
    {
        let n = self.bars.len();
        let mut matched = false;
        let mut i: usize = 0;
        while i < n
            invariant
                i <= n,
                n == self.bars@.len(),
                width <= MAX_DIM,
                height <= MAX_DIM,
                self.runtime == old(self).runtime,
                self.bar_configs == old(self).bar_configs,
                self.next_surface == old(self).next_surface,
                self.bars@.len() == old(self).bars@.len(),
                forall|j: int|
                    0 <= j < i ==> self.bars@[j] == spec_configured(
                        old(self).bars@[j],
                        surface,
                        width,
                        height,
                    ),
                forall|j: int| i <= j < n ==> self.bars@[j] == old(self).bars@[j],
                matched == (exists|j: int|
                    0 <= j < i && old(self).bars@[j].surface == surface),
            decreases n - i,
        {
            let b = self.bars[i];
            if b.surface == surface {
                self.bars[i] =
                Bar { width, height, dirty: true, life: BarLife::Sized, ..b };
                matched = true;
            }
            i = i + 1;
        }
        self.runtime.redraw = true;
        matched
    }

    /// The compositor closed `surface`: release every bar bound to it and
    /// drop it from the active set, so no further configure events for it
    /// are processed.
    pub fn handle_closed(&mut self, surface: u64)
        ensures
            final(self).bars@ == spec_remove_surface(old(self).bars@, surface),
            *final(self) == (State { bars: final(self).bars, ..*old(self) }),
    {
        let n = self.bars.len();
        let mut kept: Vec<Bar> = Vec::new();
        let mut i: usize = 0;
        while i < n
            invariant
                i <= n,
                n == self.bars@.len(),
                *self == *old(self),
                kept@ == spec_remove_surface(self.bars@.take(i as int), surface),
            decreases n - i,
        {
            proof {
                assert(self.bars@.take(i + 1).drop_last() =~= self.bars@.take(i as int));
                assert(self.bars@.take(i + 1).last() == self.bars@[i as int]);
            }
            let b = self.bars[i];
            if b.surface != surface {
                kept.push(b);
            }
            i = i + 1;
        }
        proof {
            assert(self.bars@.take(n as int) =~= self.bars@);
        }
        self.bars = kept;
    }

    /// The update phase of a tick: the data collaborator refreshes every
    /// variable's text, and every bar is marked dirty so the paint phase
    /// repaints it.
    pub fn set_data(&mut self)
        ensures
            final(self).bars@ == spec_all_dirty(old(self).bars@),
            *final(self) == (State { bars: final(self).bars, ..*old(self) }),
    {
        let n = self.bars.len();
        let mut i: usize = 0;
        while i < n
            invariant
                i <= n,
                n == self.bars@.len(),
                self.bars@.len() == old(self).bars@.len(),
                self.runtime == old(self).runtime,
                self.bar_configs == old(self).bar_configs,
                self.next_surface == old(self).next_surface,
                forall|j: int|
                    0 <= j < i ==> self.bars@[j] == (Bar { dirty: true, ..old(self).bars@[j] }),
                forall|j: int| i <= j < n ==> self.bars@[j] == old(self).bars@[j],
            decreases n - i,
        {
            let b = self.bars[i];
            self.bars[i] = Bar { dirty: true, ..b };
            i = i + 1;
        }
        proof {
            assert(self.bars@ =~= spec_all_dirty(old(self).bars@));
        }
    }

    /// The paint phase of a tick. Returns the plan for this pass: the
    /// shared pixel buffer is resized to exactly the total byte size of
    /// the dirty bars — clean bars contribute zero bytes and are skipped
    /// entirely — and each dirty bar is drawn into its own sub-range and
    /// committed, after which its dirty flag is clear. When nothing needs
    /// bytes, no buffer is touched and nothing is committed. `None` means
    /// the total does not fit in a machine word; the caller treats that
    /// like any other allocation failure: fatal.
    pub fn draw_now(&mut self) -> (r: Option<PaintPlan>)
        requires
            old(self).bars_wf(),
        ensures
            r is Some <==> spec_dirty_total(old(self).bars@) <= u64::MAX,
            r is None ==> *final(self) == *old(self),
            r matches Some(plan) ==> plan.total as int == spec_dirty_total(old(self).bars@),
            r matches Some(plan) ==> (plan.total == 0 ==> plan.segments@ == Seq::<
                PaintSegment,
            >::empty() && *final(self) == *old(self)),
            r matches Some(plan) ==> (plan.total != 0 ==> plan.segments@ == spec_segments(
                old(self).bars@,
            ) && plan.segments@.len() == spec_dirty_count(old(self).bars@) && final(self).bars@
                == spec_clear_dirty(old(self).bars@) && (*final(self) == (State {
                bars: final(self).bars,
                ..*old(self)
            }))),
    {
        let n = self.bars.len();
        let mut total: u64 = 0;
        let mut segments: Vec<PaintSegment> = Vec::new();
        let mut i: usize = 0;
        while i < n
            invariant
                i <= n,
                n == self.bars@.len(),
                *self == *old(self),
                old(self).bars_wf(),
                total as int == spec_dirty_total(self.bars@.take(i as int)),
                segments@ == spec_segments(self.bars@.take(i as int)),
                segments@.len() == spec_dirty_count(self.bars@.take(i as int)),
            decreases n - i,
        {
            proof {
                assert(self.bars@.take(i + 1).drop_last() =~= self.bars@.take(i as int));
                assert(self.bars@.take(i + 1).last() == self.bars@[i as int]);
            }
            let b = self.bars[i];
            if b.dirty {
                assert(b.wf());
                let stride: u32 = 4 * b.width;
                proof {
                    assert((b.height as int) * (4 * (b.width as int)) <= 0x2_0000_0000_0000
                        && (b.height as int) * (4 * (b.width as int)) >= 0) by (nonlinear_arith)
                        requires
                            0 <= b.height as int <= 65535,
                            0 <= b.width as int <= 65535,
                    ;
                }
                let len: u64 = (b.height as u64) * (stride as u64);
                if len > u64::MAX - total {
                    proof {
                        lemma_dirty_total_take_le(self.bars@, i + 1);
                    }
                    return None;
                }
                segments.push(
                    PaintSegment {
                        surface: b.surface,
                        pos: total,
                        len,
                        width: b.width,
                        height: b.height,
                        stride,
                    },
                );
                total = total + len;
            }
            i = i + 1;
        }
        proof {
            assert(self.bars@.take(n as int) =~= self.bars@);
        }
        if total == 0 {
            return Some(PaintPlan { total, segments: Vec::new() });
        }
        let mut j: usize = 0;
        while j < n
            invariant
                j <= n,
                n == self.bars@.len(),
                self.bars@.len() == old(self).bars@.len(),
                self.runtime == old(self).runtime,
                self.bar_configs == old(self).bar_configs,
                self.next_surface == old(self).next_surface,
                forall|k: int|
                    0 <= k < j ==> self.bars@[k] == (Bar { dirty: false, ..old(self).bars@[k] }),
                forall|k: int| j <= k < n ==> self.bars@[k] == old(self).bars@[k],
            decreases n - j,
        {
            let b = self.bars[j];
            if b.dirty {
                self.bars[j] = Bar { dirty: false, ..b };
            } else {
                proof {
                    assert(self.bars@[j as int] == (Bar {
                        dirty: false,
                        ..old(self).bars@[j as int]
                    }));
                }
            }
            j = j + 1;
        }
        proof {
            assert(self.bars@ =~= spec_clear_dirty(old(self).bars@));
        }
        Some(PaintPlan { total, segments })
    }

    /// One render tick: refresh observed data (which marks every bar
    /// dirty), then plan the paint pass. The caller executes the plan —
    /// draw, attach, damage, commit per segment, then one flush — and
    /// aborts on `None` exactly as it would on allocation failure.
    pub fn tick(&mut self) -> (r: Option<PaintPlan>)
        requires
            old(self).bars_wf(),
        ensures
            r is Some <==> spec_dirty_total(spec_all_dirty(old(self).bars@)) <= u64::MAX,
            r matches Some(plan) ==> plan.total as int == spec_dirty_total(
                spec_all_dirty(old(self).bars@),
            ),
            r matches Some(plan) ==> (plan.total != 0 ==> plan.segments@ == spec_segments(
                spec_all_dirty(old(self).bars@),
            ) && plan.segments@.len() == spec_dirty_count(spec_all_dirty(old(self).bars@))
                && final(self).bars@ == spec_clear_dirty(spec_all_dirty(old(self).bars@))),
            r matches Some(plan) ==> (plan.total == 0 ==> plan.segments@ == Seq::<
                PaintSegment,
            >::empty() && final(self).bars@ == spec_all_dirty(old(self).bars@)),
            r is None ==> final(self).bars@ == spec_all_dirty(old(self).bars@),
            *final(self) == (State {
                bars: final(self).bars,
                runtime: final(self).runtime,
                ..*old(self)
            }),
            final(self).runtime == (Runtime { redraw: final(self).runtime.redraw, ..old(self).runtime }),
    {
        self.set_data();
        proof {
            assert forall|i: int| 0 <= i < self.bars@.len() implies (#[trigger] self.bars@[i]).wf()
            by {
                assert(self.bars@[i] == (Bar { dirty: true, ..old(self).bars@[i] }));
                assert(old(self).bars@[i].wf());
            }
        }
        self.draw_now()
    }
}

} // verus!
