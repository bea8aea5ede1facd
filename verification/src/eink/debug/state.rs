//! Debug inspector state: registered components, their spatial hierarchy,
//! panel toggles and the scene tree.
//!
//! Components form a tree by containment: the parent of a component is the
//! smallest other component whose box strictly encloses it (first registered
//! among equally small ones). Nodes with children are collapsed unless the
//! user expanded them.
use vstd::prelude::*;

verus! {

/// Box-model spacing (margin / border / padding) in pixels.
#[derive(Debug, Clone, Copy, PartialEq, Eq, Structural)]
pub struct Spacing {
    pub top: u16,
    pub right: u16,
    pub bottom: u16,
    pub left: u16,
}

impl Spacing {
    /// The same spacing on all four sides.
    pub fn all(v: u16) -> (r: Self)
        ensures
            r == (Spacing { top: v, right: v, bottom: v, left: v }),
    {
        Spacing { top: v, right: v, bottom: v, left: v }
    }

    /// `vert` above and below, `horiz` left and right.
    pub fn axes(vert: u16, horiz: u16) -> (r: Self)
        ensures
            r == (Spacing { top: vert, right: horiz, bottom: vert, left: horiz }),
    {
        Spacing { top: vert, right: horiz, bottom: vert, left: horiz }
    }

    /// Whether all four sides are zero.
    pub fn is_zero(&self) -> (r: bool)
        ensures
            r == (self.top == 0 && self.right == 0 && self.bottom == 0 && self.left == 0),
    {
        self.top == 0 && self.right == 0 && self.bottom == 0 && self.left == 0
    }
}

impl Default for Spacing {
    fn default() -> (r: Self)
        ensures
            r == (Spacing { top: 0, right: 0, bottom: 0, left: 0 }),
    {
        Spacing { top: 0, right: 0, bottom: 0, left: 0 }
    }
}

/// Component information for debugging
#[derive(Debug)]
pub struct ComponentInfo {
    pub component_type: String,
    pub position: (i32, i32),
    pub size: (u32, u32),
    pub test_id: Option<String>,
    /// Outer margin (outside the border).
    pub margin: Spacing,
    /// Inner padding (inside the border).
    pub padding: Spacing,
    /// Border width on each side.
    pub border: Spacing,
    /// Arbitrary key-value attributes for display in the inspector.
    pub attributes: Vec<(String, String)>,
}

/// `a` and `b` have the same view (every field equal, the attribute list by
/// its contents).
pub open spec fn same_info(a: ComponentInfo, b: ComponentInfo) -> bool {
    &&& a.component_type@ == b.component_type@
    &&& a.position == b.position
    &&& a.size == b.size
    &&& a.test_id == b.test_id
    &&& a.margin == b.margin
    &&& a.padding == b.padding
    &&& a.border == b.border
    &&& a.attributes@ == b.attributes@
}

impl Clone for ComponentInfo {
    fn clone(&self) -> (r: Self)
        ensures
            same_info(r, *self),
    {
        let mut attributes: Vec<(String, String)> = Vec::new();
        let mut i: usize = 0;
        while i < self.attributes.len()
            invariant
                i <= self.attributes@.len(),
                attributes@ == self.attributes@.subrange(0, i as int),
            decreases self.attributes@.len() - i,
        {
            let (k, v) = &self.attributes[i];
            attributes.push((k.clone(), v.clone()));
            assert(attributes@ =~= self.attributes@.subrange(0, i + 1));
            i = i + 1;
        }
        assert(self.attributes@.subrange(0, self.attributes@.len() as int) == self.attributes@);
        let test_id = match &self.test_id {
            Some(t) => Some(t.clone()),
            None => None,
        };
        ComponentInfo {
            component_type: self.component_type.clone(),
            position: self.position,
            size: self.size,
            test_id,
            margin: self.margin,
            padding: self.padding,
            border: self.border,
            attributes,
        }
    }
}

impl Default for ComponentInfo {
    fn default() -> (r: Self)
        ensures
            r.component_type@ == Seq::<char>::empty(),
            r.position == (0i32, 0i32),
            r.size == (0u32, 0u32),
            r.test_id is None,
            r.margin == (Spacing { top: 0, right: 0, bottom: 0, left: 0 }),
            r.padding == (Spacing { top: 0, right: 0, bottom: 0, left: 0 }),
            r.border == (Spacing { top: 0, right: 0, bottom: 0, left: 0 }),
            r.attributes@ == Seq::<(String, String)>::empty(),
    {
        ComponentInfo {
            component_type: String::new(),
            position: (0, 0),
            size: (0, 0),
            test_id: None,
            margin: Spacing::default(),
            padding: Spacing::default(),
            border: Spacing::default(),
            attributes: Vec::new(),
        }
    }
}

impl ComponentInfo {
    /// Set the margin.
    pub fn with_margin(self, s: Spacing) -> (r: Self)
        ensures
            same_info(r, ComponentInfo { margin: s, ..self }),
    {
        let mut c = self;
        c.margin = s;
        c
    }

    /// Set the padding.
    pub fn with_padding(self, s: Spacing) -> (r: Self)
        ensures
            same_info(r, ComponentInfo { padding: s, ..self }),
    {
        let mut c = self;
        c.padding = s;
        c
    }

    /// Set the border widths.
    pub fn with_border(self, s: Spacing) -> (r: Self)
        ensures
            same_info(r, ComponentInfo { border: s, ..self }),
    {
        let mut c = self;
        c.border = s;
        c
    }

    /// Append a key-value attribute.
    pub fn with_attr(self, k: &str, v: &str) -> (r: Self)
        ensures
            r.attributes@.len() == self.attributes@.len() + 1,
            r.attributes@.subrange(0, self.attributes@.len() as int) == self.attributes@,
            r.attributes@.last().0@ == k@,
            r.attributes@.last().1@ == v@,
            r.component_type == self.component_type,
            r.position == self.position,
            r.size == self.size,
            r.test_id == self.test_id,
            r.margin == self.margin,
            r.padding == self.padding,
            r.border == self.border,
    {
        let mut c = self;
        c.attributes.push((k.to_owned(), v.to_owned()));
        c
    }
}

/// Kind of a display refresh, for the refresh counters and power samples.
#[derive(Debug, Clone, Copy, PartialEq, Eq, Structural)]
pub enum RefreshType {
    Full,
    Partial,
    Fast,
}

/// Which tab is currently active in the debug side panel.
#[derive(Debug, Clone, Copy, PartialEq, Eq, Structural)]
pub enum DebugTab {
    /// Scene hierarchy tree + component inspector (default).
    Scene,
    /// Display dimensions, rotation, temperature, refresh counts, hotkeys.
    Display,
    /// Live power graph and battery statistics.
    Power,
}

/// A single row in the flattened, visibility-resolved scene tree.
#[derive(Debug, Clone, Copy, PartialEq, Eq, Structural)]
pub struct SceneRow {
    /// Index into the registered components.
    pub comp_idx: usize,
    /// Nesting depth (0 = root, 1 = direct child of root, …).
    pub depth: usize,
    /// Whether this node has at least one child in the scene.
    pub has_children: bool,
    /// Whether this node is currently collapsed (children hidden).
    pub is_collapsed: bool,
    /// True when this row is a header for a group of labels; `comp_idx`
    /// is then the first label of the group.
    pub is_label_group: bool,
    /// Number of labels merged into this group (for group rows).
    pub label_group_count: usize,
}

/// The key `(x, y, w, h)` of a component's box.
pub open spec fn box_key(c: ComponentInfo) -> (i32, i32, u32, u32) {
    (c.position.0, c.position.1, c.size.0, c.size.1)
}

/// `a` and `b` have the same box.
pub open spec fn same_box(a: ComponentInfo, b: ComponentInfo) -> bool {
    a.position == b.position && a.size == b.size
}

/// Area of a component's box.
pub open spec fn area(c: ComponentInfo) -> nat {
    c.size.0 as nat * c.size.1 as nat
}

/// Right edge `x + w` of a box, computed in 32 bits.
pub open spec fn right_edge(c: ComponentInfo) -> int {
    c.position.0 + (c.size.0 as i32)
}

/// Bottom edge `y + h` of a box, computed in 32 bits.
pub open spec fn bottom_edge(c: ComponentInfo) -> int {
    c.position.1 + (c.size.1 as i32)
}

/// The edges of a component's box fit in `i32`.
pub open spec fn edges_fit(c: ComponentInfo) -> bool {
    &&& i32::MIN <= right_edge(c) <= i32::MAX
    &&& i32::MIN <= bottom_edge(c) <= i32::MAX
}

/// `p` is another, strictly larger component whose box contains `c`'s.
pub open spec fn encloses(p: ComponentInfo, c: ComponentInfo) -> bool {
    &&& !same_box(p, c)
    &&& area(p) > area(c)
    &&& p.position.0 <= c.position.0
    &&& p.position.1 <= c.position.1
    &&& right_edge(p) >= right_edge(c)
    &&& bottom_edge(p) >= bottom_edge(c)
}

/// Among the first `n` components, the first of the smallest that enclose `t`.
pub open spec fn parent_upto(comps: Seq<ComponentInfo>, t: ComponentInfo, n: int) -> Option<int>
    decreases n,
{
    if n <= 0 {
        None
    } else {
        let best = parent_upto(comps, t, n - 1);
        if encloses(comps[n - 1], t) && (best is None || area(comps[n - 1]) < area(comps[best.unwrap()])) {
            Some(n - 1)
        } else {
            best
        }
    }
}

/// The index of the parent of `t`: the first of the smallest components
/// that enclose it, or `None` for a root.
pub open spec fn parent_index(comps: Seq<ComponentInfo>, t: ComponentInfo) -> Option<int> {
    parent_upto(comps, t, comps.len() as int)
}

/// Component `i` is a direct child of `p`: `p` encloses it and is its parent.
pub open spec fn is_child(comps: Seq<ComponentInfo>, p: ComponentInfo, i: int) -> bool {
    &&& 0 <= i < comps.len()
    &&& encloses(p, comps[i])
    &&& parent_index(comps, comps[i]) matches Some(q) && same_box(comps[q], p)
}

/// Component `i` is a root: nothing encloses it.
pub open spec fn is_root(comps: Seq<ComponentInfo>, i: int) -> bool {
    0 <= i < comps.len() && parent_index(comps, comps[i]) is None
}

/// Component `a` comes before `b` in scene order: top to bottom, then left
/// to right, then registration order.
pub open spec fn before(comps: Seq<ComponentInfo>, a: int, b: int) -> bool {
    let (xa, ya) = comps[a].position;
    let (xb, yb) = comps[b].position;
    ya < yb || (ya == yb && (xa < xb || (xa == xb && a < b)))
}

/// `s` lists components in strict scene order.
pub open spec fn in_scene_order(comps: Seq<ComponentInfo>, s: Seq<int>) -> bool {
    forall|i: int, j: int| 0 <= i < j < s.len() ==> before(comps, #[trigger] s[i], #[trigger] s[j])
}

/// The components that satisfy `pick`, in scene order (the unique such list).
pub open spec fn ordered(comps: Seq<ComponentInfo>, pick: spec_fn(int) -> bool) -> Seq<int> {
    choose|s: Seq<int>|
        in_scene_order(comps, s) && (forall|k: int| #[trigger] s.contains(k) <==> (0 <= k < comps.len() && pick(k)))
}

/// The direct children of `p`, in scene order.
pub open spec fn children_of(comps: Seq<ComponentInfo>, p: ComponentInfo) -> Seq<int> {
    ordered(comps, |i: int| is_child(comps, p, i))
}

/// The roots, in scene order.
pub open spec fn roots_of(comps: Seq<ComponentInfo>) -> Seq<int> {
    ordered(comps, |i: int| is_root(comps, i))
}

/// Two lists in strict scene order with the same members are equal.
pub proof fn lemma_scene_order_unique(comps: Seq<ComponentInfo>, s1: Seq<int>, s2: Seq<int>)
    requires
        in_scene_order(comps, s1),
        in_scene_order(comps, s2),
        forall|k: int| s1.contains(k) <==> s2.contains(k),
    ensures
        s1 == s2,
    decreases s1.len(),
{
    if s1.len() == 0 {
        if s2.len() > 0 {
            assert(s2.contains(s2[0]));
        }
        assert(s1 =~= s2);
    } else {
        assert(s1.contains(s1[0]));
        assert(s2.len() > 0);
        assert(s2.contains(s2[0]));
        let a = s1[0];
        let b = s2[0];
        if a != b {
            let i = choose|i: int| 0 <= i < s1.len() && s1[i] == b;
            let j = choose|j: int| 0 <= j < s2.len() && s2[j] == a;
            assert(before(comps, s1[0], s1[i]));
            assert(before(comps, s2[0], s2[j]));
        }
        let t1 = s1.drop_first();
        let t2 = s2.drop_first();
        assert forall|k: int| t1.contains(k) <==> t2.contains(k) by {
            if t1.contains(k) {
                let i = choose|i: int| 0 <= i < t1.len() && t1[i] == k;
                assert(s1[i + 1] == k);
                assert(before(comps, s1[0], s1[i + 1]));
                assert(s2.contains(k));
                let j = choose|j: int| 0 <= j < s2.len() && s2[j] == k;
                if j == 0 {
                    assert(k == a);
                }
                assert(t2[j - 1] == k);
            }
            if t2.contains(k) {
                let i = choose|i: int| 0 <= i < t2.len() && t2[i] == k;
                assert(s2[i + 1] == k);
                assert(before(comps, s2[0], s2[i + 1]));
                assert(s1.contains(k));
                let j = choose|j: int| 0 <= j < s1.len() && s1[j] == k;
                if j == 0 {
                    assert(k == b);
                }
                assert(t1[j - 1] == k);
            }
        }
        assert forall|i: int, j: int| 0 <= i < j < t1.len() implies before(comps, #[trigger] t1[i], #[trigger] t1[j]) by {
            assert(before(comps, s1[i + 1], s1[j + 1]));
        }
        assert forall|i: int, j: int| 0 <= i < j < t2.len() implies before(comps, #[trigger] t2[i], #[trigger] t2[j]) by {
            assert(before(comps, s2[i + 1], s2[j + 1]));
        }
        lemma_scene_order_unique(comps, t1, t2);
        assert(s1 =~= s2) by {
            assert(s1 == seq![a] + t1);
            assert(s2 == seq![b] + t2);
        }
    }
}

/// A list in scene order with exactly the picked members is [`ordered`]'s list.
pub proof fn lemma_ordered_is(comps: Seq<ComponentInfo>, pick: spec_fn(int) -> bool, s: Seq<int>)
    requires
        in_scene_order(comps, s),
        forall|k: int| #[trigger] s.contains(k) <==> (0 <= k < comps.len() && pick(k)),
    ensures
        ordered(comps, pick) == s,
{
    let t = ordered(comps, pick);
    assert(in_scene_order(comps, t) && (forall|k: int| #[trigger] t.contains(k) <==> (0 <= k < comps.len() && pick(k))));
    lemma_scene_order_unique(comps, s, t);
}


/// The integers of a list of indices.
pub open spec fn as_ints(s: Seq<usize>) -> Seq<int> {
    s.map_values(|v: usize| v as int)
}

/// Every registered box has edges that fit in `i32`.
pub open spec fn all_fit(comps: Seq<ComponentInfo>) -> bool {
    forall|k: int| 0 <= k < comps.len() ==> edges_fit(#[trigger] comps[k])
}

/// `(y, x)` of component `a` is strictly before that of component `b`.
pub open spec fn key_lt(comps: Seq<ComponentInfo>, a: int, b: int) -> bool {
    let (xa, ya) = comps[a].position;
    let (xb, yb) = comps[b].position;
    ya < yb || (ya == yb && xa < xb)
}

/// `after` is `before` with `key` toggled: removed (every copy) when it was
/// there, appended when it was not.
pub open spec fn toggled(before: Seq<(i32, i32, u32, u32)>, after: Seq<(i32, i32, u32, u32)>, key: (i32, i32, u32, u32)) -> bool {
    if before.contains(key) {
        forall|k: (i32, i32, u32, u32)| #[trigger] after.contains(k) <==> (before.contains(k) && k != key)
    } else {
        after == before.push(key)
    }
}

/// Toggling a node twice leaves the set of expanded nodes as it was.
pub proof fn lemma_toggle_twice(
    a: Seq<(i32, i32, u32, u32)>,
    b: Seq<(i32, i32, u32, u32)>,
    c: Seq<(i32, i32, u32, u32)>,
    key: (i32, i32, u32, u32),
)
    requires
        toggled(a, b, key),
        toggled(b, c, key),
    ensures
        forall|k: (i32, i32, u32, u32)| #[trigger] c.contains(k) <==> a.contains(k),
        forall|comp: ComponentInfo| #[trigger] collapsed(c, comp) == collapsed(a, comp),
{
    if a.contains(key) {
        assert(!b.contains(key));
        assert(c == b.push(key));
        assert forall|k: (i32, i32, u32, u32)| #[trigger] c.contains(k) <==> a.contains(k) by {
            if c.contains(k) && k != key {
                let i = choose|i: int| 0 <= i < c.len() && c[i] == k;
                assert(b[i] == k);
                assert(b.contains(k));
            }
            if b.contains(k) {
                let i = choose|i: int| 0 <= i < b.len() && b[i] == k;
                assert(c[i] == k);
            }
            if k == key {
                assert(c[b.len() as int] == key);
            }
        }
        assert forall|comp: ComponentInfo| #[trigger] collapsed(c, comp) == collapsed(a, comp) by {
            assert(c.contains(box_key(comp)) <==> a.contains(box_key(comp)));
        }
    } else {
        assert(b == a.push(key));
        assert(b[a.len() as int] == key);
        assert forall|k: (i32, i32, u32, u32)| #[trigger] c.contains(k) <==> a.contains(k) by {
            if a.contains(k) {
                let i = choose|i: int| 0 <= i < a.len() && a[i] == k;
                assert(b[i] == k);
            }
            if b.contains(k) && k != key {
                let i = choose|i: int| 0 <= i < b.len() && b[i] == k;
                assert(i < a.len());
                assert(a[i] == k);
            }
        }
        assert forall|comp: ComponentInfo| #[trigger] collapsed(c, comp) == collapsed(a, comp) by {
            assert(c.contains(box_key(comp)) <==> a.contains(box_key(comp)));
        }
    }
}

/// Debug system state
pub struct DebugState {
    pub panel_visible: bool,
    pub borders_enabled: bool,
    pub inspector_mode: bool,
    pub hovered_component: Option<ComponentInfo>,
    pub selected_component: Option<ComponentInfo>,
    /// Explicitly registered components shown by the borders overlay.
    pub registered_components: Vec<ComponentInfo>,
    /// Number of full refreshes recorded
    pub full_refresh_count: u64,
    /// Number of partial refreshes recorded
    pub partial_refresh_count: u64,
    /// Currently active tab in the debug panel.
    pub active_tab: DebugTab,
    /// Box keys `(x, y, w, h)` of the nodes the user expanded; nodes with
    /// children are collapsed unless their key is listed here.
    pub expanded_nodes: Vec<(i32, i32, u32, u32)>,
    /// Currently keyboard-selected row of the scene tree.
    pub scene_selected: Option<usize>,
    /// First visible row (scroll offset) of the scene tree.
    pub scene_scroll: usize,
}

impl DebugState {
    /// The freshly created state: everything off, nothing registered.
    pub open spec fn is_initial(self) -> bool {
        &&& !self.panel_visible
        &&& !self.borders_enabled
        &&& !self.inspector_mode
        &&& self.hovered_component is None
        &&& self.selected_component is None
        &&& self.registered_components@.len() == 0
        &&& self.full_refresh_count == 0
        &&& self.partial_refresh_count == 0
        &&& self.active_tab == DebugTab::Scene
        &&& self.expanded_nodes@.len() == 0
        &&& self.scene_selected is None
        &&& self.scene_scroll == 0
    }

    /// The state with only the panel flags possibly changed.
    pub open spec fn same_but_flags(self, other: Self) -> bool {
        &&& self.hovered_component == other.hovered_component
        &&& self.selected_component == other.selected_component
        &&& self.registered_components@ == other.registered_components@
        &&& self.full_refresh_count == other.full_refresh_count
        &&& self.partial_refresh_count == other.partial_refresh_count
        &&& self.expanded_nodes@ == other.expanded_nodes@
        &&& self.scene_selected == other.scene_selected
        &&& self.scene_scroll == other.scene_scroll
    }

    /// The state with only the expanded set possibly changed.
    pub open spec fn same_but_expanded(self, other: Self) -> bool {
        &&& self.panel_visible == other.panel_visible
        &&& self.borders_enabled == other.borders_enabled
        &&& self.inspector_mode == other.inspector_mode
        &&& self.active_tab == other.active_tab
        &&& self.hovered_component == other.hovered_component
        &&& self.selected_component == other.selected_component
        &&& self.registered_components@ == other.registered_components@
        &&& self.full_refresh_count == other.full_refresh_count
        &&& self.partial_refresh_count == other.partial_refresh_count
        &&& self.scene_selected == other.scene_selected
        &&& self.scene_scroll == other.scene_scroll
    }

    pub fn new() -> (r: Self)
        ensures
            r.is_initial(),
    {
        DebugState {
            panel_visible: false,
            borders_enabled: false,
            inspector_mode: false,
            hovered_component: None,
            selected_component: None,
            registered_components: Vec::new(),
            full_refresh_count: 0,
            partial_refresh_count: 0,
            active_tab: DebugTab::Scene,
            expanded_nodes: Vec::new(),
            scene_selected: None,
            scene_scroll: 0,
        }
    }

    /// Advance to the next tab (Scene → Display → Power → Scene).
    pub fn cycle_tab(&mut self)
        ensures
            final(self).active_tab == match old(self).active_tab {
                DebugTab::Scene => DebugTab::Display,
                DebugTab::Display => DebugTab::Power,
                DebugTab::Power => DebugTab::Scene,
            },
            final(self).panel_visible == old(self).panel_visible,
            final(self).borders_enabled == old(self).borders_enabled,
            final(self).inspector_mode == old(self).inspector_mode,
            final(self).same_but_flags(*old(self)),
    {
        self.active_tab = match self.active_tab {
            DebugTab::Scene => DebugTab::Display,
            DebugTab::Display => DebugTab::Power,
            DebugTab::Power => DebugTab::Scene,
        };
    }

    pub fn toggle_panel(&mut self)
        ensures
            final(self).panel_visible == !old(self).panel_visible,
            final(self).borders_enabled == old(self).borders_enabled,
            final(self).inspector_mode == old(self).inspector_mode,
            final(self).active_tab == old(self).active_tab,
            final(self).same_but_flags(*old(self)),
    {
        self.panel_visible = !self.panel_visible;
    }

    pub fn toggle_borders(&mut self)
        ensures
            final(self).borders_enabled == !old(self).borders_enabled,
            final(self).panel_visible == old(self).panel_visible,
            final(self).inspector_mode == old(self).inspector_mode,
            final(self).active_tab == old(self).active_tab,
            final(self).same_but_flags(*old(self)),
    {
        self.borders_enabled = !self.borders_enabled;
    }

    pub fn toggle_inspector(&mut self)
        ensures
            final(self).inspector_mode == !old(self).inspector_mode,
            final(self).panel_visible == old(self).panel_visible,
            final(self).borders_enabled == old(self).borders_enabled,
            final(self).active_tab == old(self).active_tab,
            final(self).same_but_flags(*old(self)),
    {
        self.inspector_mode = !self.inspector_mode;
    }

    /// Register a component so it appears in the borders overlay and the
    /// scene tree.
    pub fn register_component(&mut self, component: ComponentInfo)
        ensures
            final(self).registered_components@ == old(self).registered_components@.push(component),
            final(self).expanded_nodes@ == old(self).expanded_nodes@,
            final(self).scene_selected == old(self).scene_selected,
            final(self).scene_scroll == old(self).scene_scroll,
            final(self).full_refresh_count == old(self).full_refresh_count,
            final(self).partial_refresh_count == old(self).partial_refresh_count,
    {
        self.registered_components.push(component);
    }

    /// Remove all registered components, with the tree's expansion,
    /// selection and scroll.
    pub fn clear_registered_components(&mut self)
        ensures
            final(self).registered_components@.len() == 0,
            final(self).expanded_nodes@.len() == 0,
            final(self).scene_selected is None,
            final(self).scene_scroll == 0,
            final(self).full_refresh_count == old(self).full_refresh_count,
            final(self).partial_refresh_count == old(self).partial_refresh_count,
            final(self).panel_visible == old(self).panel_visible,
            final(self).active_tab == old(self).active_tab,
    {
        self.registered_components.clear();
        self.expanded_nodes.clear();
        self.scene_selected = None;
        self.scene_scroll = 0;
    }

    /// Record a full refresh event.
    pub fn record_full_refresh(&mut self)
        requires
            old(self).full_refresh_count < u64::MAX,
        ensures
            final(self).full_refresh_count == old(self).full_refresh_count + 1,
            final(self).partial_refresh_count == old(self).partial_refresh_count,
    {
        self.full_refresh_count += 1;
    }

    /// Record a partial refresh event.
    pub fn record_partial_refresh(&mut self)
        requires
            old(self).partial_refresh_count < u64::MAX,
        ensures
            final(self).partial_refresh_count == old(self).partial_refresh_count + 1,
            final(self).full_refresh_count == old(self).full_refresh_count,
    {
        self.partial_refresh_count += 1;
    }

    /// Whether `comp`'s subtree is collapsed: nodes are collapsed unless
    /// the user expanded them.
    pub fn is_node_collapsed(&self, comp: &ComponentInfo) -> (r: bool)
        ensures
            r == !self.expanded_nodes@.contains(box_key(*comp)),
    {
        let key = (comp.position.0, comp.position.1, comp.size.0, comp.size.1);
        let mut i: usize = 0;
        while i < self.expanded_nodes.len()
            invariant
                i <= self.expanded_nodes@.len(),
                key == box_key(*comp),
                forall|k: int| 0 <= k < i ==> self.expanded_nodes@[k] != key,
            decreases self.expanded_nodes@.len() - i,
        {
            let e = self.expanded_nodes[i];
            if e.0 == key.0 && e.1 == key.1 && e.2 == key.2 && e.3 == key.3 {
                assert(self.expanded_nodes@[i as int] == key);
                return false;
            }
            i = i + 1;
        }
        true
    }

    /// Toggle the collapsed/expanded state of `comp`.
    pub fn toggle_node_collapsed(&mut self, comp: &ComponentInfo)
        ensures
            toggled(old(self).expanded_nodes@, final(self).expanded_nodes@, box_key(*comp)),
            final(self).same_but_expanded(*old(self)),
            old(self).expanded_nodes@.no_duplicates() ==> final(self).expanded_nodes@.no_duplicates(),
    {
        let key = (comp.position.0, comp.position.1, comp.size.0, comp.size.1);
        let was_expanded = !self.is_node_collapsed(comp);
        if was_expanded {
            let mut kept: Vec<(i32, i32, u32, u32)> = Vec::new();
            let mut i: usize = 0;
            while i < self.expanded_nodes.len()
                invariant
                    i <= self.expanded_nodes@.len(),
                    key == box_key(*comp),
                    forall|k: (i32, i32, u32, u32)| #[trigger] kept@.contains(k) <==>
                        (self.expanded_nodes@.subrange(0, i as int).contains(k) && k != key),
                    self.expanded_nodes@.no_duplicates() ==> kept@.no_duplicates(),
                decreases self.expanded_nodes@.len() - i,
            {
                let e = self.expanded_nodes[i];
                let ghost before = kept@;
                if !(e.0 == key.0 && e.1 == key.1 && e.2 == key.2 && e.3 == key.3) {
                    proof {
                        if self.expanded_nodes@.no_duplicates() && before.contains(e) {
                            let s0 = self.expanded_nodes@.subrange(0, i as int);
                            assert(s0.contains(e));
                            let j = choose|j: int| 0 <= j < s0.len() && s0[j] == e;
                            assert(self.expanded_nodes@[j] == self.expanded_nodes@[i as int]);
                        }
                    }
                    kept.push(e);
                    proof {
                        if self.expanded_nodes@.no_duplicates() {
                            assert forall|p: int, q: int| 0 <= p < kept@.len() && 0 <= q < kept@.len() && p != q
                                implies kept@[p] != kept@[q] by {
                                if p < before.len() && q < before.len() {
                                    assert(before[p] == kept@[p] && before[q] == kept@[q]);
                                } else if p < before.len() {
                                    assert(before.contains(kept@[p]));
                                } else {
                                    assert(before.contains(kept@[q]));
                                }
                            }
                        }
                    }
                }
                assert forall|k: (i32, i32, u32, u32)| #[trigger] kept@.contains(k) <==>
                    (self.expanded_nodes@.subrange(0, i + 1).contains(k) && k != key) by {
                    let s0 = self.expanded_nodes@.subrange(0, i as int);
                    let s1 = self.expanded_nodes@.subrange(0, i + 1);
                    assert(s1 == s0.push(e));
                    if s1.contains(k) && k != key {
                        let j = choose|j: int| 0 <= j < s1.len() && s1[j] == k;
                        if j < i {
                            assert(s0[j] == k);
                        } else {
                            assert(kept@[kept@.len() - 1] == e);
                        }
                    }
                    if s0.contains(k) {
                        let j = choose|j: int| 0 <= j < s0.len() && s0[j] == k;
                        assert(s1[j] == k);
                    }
                    if kept@.contains(k) && !before.contains(k) {
                        let j = choose|j: int| 0 <= j < kept@.len() && kept@[j] == k;
                        if j < before.len() {
                            assert(before[j] == k);
                        }
                        assert(s1[i as int] == e);
                    }
                    if before.contains(k) {
                        let j = choose|j: int| 0 <= j < before.len() && before[j] == k;
                        assert(kept@[j] == k);
                    }
                }
                i = i + 1;
            }
            assert(self.expanded_nodes@.subrange(0, self.expanded_nodes@.len() as int) == self.expanded_nodes@);
            self.expanded_nodes = kept;
        } else {
            let ghost before = self.expanded_nodes@;
            self.expanded_nodes.push(key);
            proof {
                if before.no_duplicates() {
                    assert forall|p: int, q: int| 0 <= p < self.expanded_nodes@.len() && 0 <= q < self.expanded_nodes@.len()
                        && p != q implies self.expanded_nodes@[p] != self.expanded_nodes@[q] by {
                        if p < before.len() && q < before.len() {
                            assert(before[p] == self.expanded_nodes@[p] && before[q] == self.expanded_nodes@[q]);
                        } else if p < before.len() {
                            assert(before.contains(self.expanded_nodes@[p]));
                        } else {
                            assert(before.contains(self.expanded_nodes@[q]));
                        }
                    }
                }
            }
        }
    }

    /// Index of the immediate spatial parent of `target`: the first of the
    /// smallest registered components whose box strictly encloses it.
    fn parent_idx(&self, target: &ComponentInfo) -> (r: Option<usize>)
        requires
            all_fit(self.registered_components@),
            edges_fit(*target),
        ensures
            match r {
                Some(i) => parent_index(self.registered_components@, *target) == Some(i as int)
                    && i < self.registered_components@.len(),
                None => parent_index(self.registered_components@, *target) is None,
            },
    {
        let comps = &self.registered_components;
        let tx = target.position.0;
        let ty = target.position.1;
        let tx2 = tx + target.size.0 as i32;
        let ty2 = ty + target.size.1 as i32;
        assert(target.size.0 as u64 * target.size.1 as u64 <= 0xffff_ffffu64 * 0xffff_ffffu64) by (nonlinear_arith)
            requires target.size.0 <= 0xffff_ffffu32, target.size.1 <= 0xffff_ffffu32;
        let target_area = target.size.0 as u64 * target.size.1 as u64;
        let mut best: Option<usize> = None;
        let mut best_area = u64::MAX;
        let mut i: usize = 0;
        while i < comps.len()
            invariant
                i <= comps@.len(),
                all_fit(comps@),
                tx == target.position.0,
                ty == target.position.1,
                tx2 == right_edge(*target),
                ty2 == bottom_edge(*target),
                target_area == area(*target),
                match best {
                    Some(b) => parent_upto(comps@, *target, i as int) == Some(b as int) && best_area == area(comps@[b as int]) && b < i,
                    None => parent_upto(comps@, *target, i as int) is None && best_area == u64::MAX,
                },
            decreases comps@.len() - i,
        {
            let comp = &comps[i];
            assert(edges_fit(comps@[i as int]));
            assert(comp.size.0 as u64 * comp.size.1 as u64 <= 0xffff_ffffu64 * 0xffff_ffffu64) by (nonlinear_arith)
                requires comp.size.0 <= 0xffff_ffffu32, comp.size.1 <= 0xffff_ffffu32;
            if comp.position.0 == target.position.0 && comp.position.1 == target.position.1
                && comp.size.0 == target.size.0 && comp.size.1 == target.size.1 {
                i = i + 1;
                continue;
            }
            let cx = comp.position.0;
            let cy = comp.position.1;
            let cx2 = cx + comp.size.0 as i32;
            let cy2 = cy + comp.size.1 as i32;
            let a = comp.size.0 as u64 * comp.size.1 as u64;
            if a > target_area && cx <= tx && cy <= ty && cx2 >= tx2 && cy2 >= ty2 {
                if a < best_area {
                    best_area = a;
                    best = Some(i);
                }
            }
            i = i + 1;
        }
        best
    }

    /// The immediate spatial parent of `target`: the first of the smallest
    /// registered components whose box strictly encloses it; `None` for a
    /// root.
    pub fn find_parent<'a>(&'a self, target: &ComponentInfo) -> (r: Option<&'a ComponentInfo>)
        requires
            all_fit(self.registered_components@),
            edges_fit(*target),
        ensures
            match parent_index(self.registered_components@, *target) {
                Some(i) => 0 <= i < self.registered_components@.len() && r == Some(&self.registered_components@[i]),
                None => r is None,
            },
    {
        match self.parent_idx(target) {
            Some(i) => Some(&self.registered_components[i]),
            None => None,
        }
    }
}


/// Number of the first `n` components whose area is below `a`.
pub open spec fn count_below(comps: Seq<ComponentInfo>, a: nat, n: int) -> nat
    decreases n,
{
    if n <= 0 {
        0
    } else {
        count_below(comps, a, n - 1) + if area(comps[n - 1]) < a { 1nat } else { 0nat }
    }
}

/// Number of components smaller than component `idx`; it falls strictly
/// from a node to each of its children.
pub open spec fn measure(comps: Seq<ComponentInfo>, idx: int) -> nat {
    count_below(comps, area(comps[idx]), comps.len() as int)
}

proof fn lemma_count_mono(comps: Seq<ComponentInfo>, a1: nat, a2: nat, n: int)
    requires
        a1 <= a2,
    ensures
        count_below(comps, a1, n) <= count_below(comps, a2, n),
        n >= 0 ==> count_below(comps, a1, n) <= n,
    decreases n,
{
    if n > 0 {
        lemma_count_mono(comps, a1, a2, n - 1);
    }
}

proof fn lemma_count_strict(comps: Seq<ComponentInfo>, a1: nat, a2: nat, n: int, k: int)
    requires
        0 <= k < n,
        a1 <= area(comps[k]) < a2,
    ensures
        count_below(comps, a1, n) < count_below(comps, a2, n),
    decreases n,
{
    lemma_count_mono(comps, a1, a2, n - 1);
    if k < n - 1 {
        lemma_count_strict(comps, a1, a2, n - 1, k);
    }
}

proof fn lemma_count_lt_len(comps: Seq<ComponentInfo>, a: nat, n: int, k: int)
    requires
        0 <= k < n,
        area(comps[k]) >= a,
    ensures
        count_below(comps, a, n) < n,
    decreases n,
{
    lemma_count_mono(comps, a, a, n - 1);
    if k < n - 1 {
        lemma_count_lt_len(comps, a, n - 1, k);
    }
}

/// Index of the first component, from `k` on, whose box is `t`'s
/// (`comps.len()` when there is none).
pub open spec fn first_with_box(comps: Seq<ComponentInfo>, t: ComponentInfo, k: int) -> int
    decreases comps.len() - k,
{
    if k < 0 || k >= comps.len() {
        comps.len() as int
    } else if same_box(comps[k], t) {
        k
    } else {
        first_with_box(comps, t, k + 1)
    }
}

/// Whether a node's subtree is collapsed: not in the expanded set.
pub open spec fn collapsed(exp: Seq<(i32, i32, u32, u32)>, c: ComponentInfo) -> bool {
    !exp.contains(box_key(c))
}

/// The row of node `idx` at `depth`.
pub open spec fn node_row(comps: Seq<ComponentInfo>, exp: Seq<(i32, i32, u32, u32)>, idx: int, depth: int) -> SceneRow {
    SceneRow {
        comp_idx: idx as usize,
        depth: depth as usize,
        has_children: children_of(comps, comps[idx]).len() > 0,
        is_collapsed: collapsed(exp, comps[idx]),
        is_label_group: false,
        label_group_count: 0,
    }
}

/// The children of node `idx` in scene order, each named by the first
/// component registered with its box.
pub open spec fn child_list(comps: Seq<ComponentInfo>, idx: int) -> Seq<int> {
    children_of(comps, comps[idx]).map_values(|c: int| first_with_box(comps, comps[c], 0))
}

/// Rows of the subtree at `idx`: its own row, then, when it is expanded,
/// the subtrees of its children one level deeper.
pub open spec fn subtree_rows(comps: Seq<ComponentInfo>, exp: Seq<(i32, i32, u32, u32)>, idx: int, depth: int) -> Seq<SceneRow>
    decreases measure(comps, idx), 1nat, 0nat,
{
    seq![node_row(comps, exp, idx, depth)] + if !collapsed(exp, comps[idx]) && children_of(comps, comps[idx]).len() > 0 {
        forest_rows(comps, exp, child_list(comps, idx), depth + 1, measure(comps, idx))
    } else {
        Seq::empty()
    }
}

/// Rows of the subtrees of `list`, one after another, for the nodes below
/// `bound` in [`measure`].
pub open spec fn forest_rows(comps: Seq<ComponentInfo>, exp: Seq<(i32, i32, u32, u32)>, list: Seq<int>, depth: int, bound: nat) -> Seq<SceneRow>
    decreases bound, 0nat, list.len(),
{
    if list.len() == 0 {
        Seq::empty()
    } else {
        forest_rows(comps, exp, list.drop_last(), depth, bound) + if measure(comps, list.last()) < bound {
            subtree_rows(comps, exp, list.last(), depth)
        } else {
            Seq::empty()
        }
    }
}

/// The depth-first rows of the whole scene, from the roots in scene order.
pub open spec fn scene_raw(comps: Seq<ComponentInfo>, exp: Seq<(i32, i32, u32, u32)>) -> Seq<SceneRow> {
    forest_rows(comps, exp, roots_of(comps), 0, comps.len() as nat)
}

/// A row of a leaf `Label` or `Text` component.
pub open spec fn is_text_leaf(comps: Seq<ComponentInfo>, r: SceneRow) -> bool {
    &&& !r.has_children
    &&& !r.is_label_group
    &&& (r.comp_idx as int) < comps.len()
    &&& (comps[r.comp_idx as int].component_type@ == "Label"@ || comps[r.comp_idx as int].component_type@ == "Text"@)
}

/// End of the run of text-leaf rows at `depth` that starts at `j`.
pub open spec fn run_end(comps: Seq<ComponentInfo>, raw: Seq<SceneRow>, j: int, depth: usize) -> int
    decreases raw.len() - j,
{
    if 0 <= j < raw.len() && raw[j].depth == depth && is_text_leaf(comps, raw[j]) {
        run_end(comps, raw, j + 1, depth)
    } else {
        j
    }
}

/// Fewest text leaves that are merged into a group row.
pub const MIN_GROUP: usize = 3;

/// The rows from `i` on after merging each run of at least [`MIN_GROUP`]
/// text leaves at one depth under a group row, which is followed by the run
/// itself unless the group is collapsed.
pub open spec fn grouped_from(comps: Seq<ComponentInfo>, exp: Seq<(i32, i32, u32, u32)>, raw: Seq<SceneRow>, i: int) -> Seq<SceneRow>
    decreases raw.len() - i,
{
    if i < 0 || i >= raw.len() {
        Seq::empty()
    } else {
        let j = run_end(comps, raw, i, raw[i].depth);
        if is_text_leaf(comps, raw[i]) && j - i >= MIN_GROUP && j <= raw.len() {
            let first = raw[i];
            let gc = collapsed(exp, comps[first.comp_idx as int]);
            seq![SceneRow {
                comp_idx: first.comp_idx,
                depth: first.depth,
                has_children: false,
                is_collapsed: gc,
                is_label_group: true,
                label_group_count: (j - i) as usize,
            }] + (if !gc { raw.subrange(i, j) } else { Seq::empty() }) + grouped_from(comps, exp, raw, j)
        } else {
            seq![raw[i]] + grouped_from(comps, exp, raw, i + 1)
        }
    }
}

/// The visible scene rows: the depth-first rows with label runs grouped.
pub open spec fn scene_rows(comps: Seq<ComponentInfo>, exp: Seq<(i32, i32, u32, u32)>) -> Seq<SceneRow> {
    grouped_from(comps, exp, scene_raw(comps, exp), 0)
}

proof fn lemma_children_of_is(comps: Seq<ComponentInfo>, p: ComponentInfo, s: Seq<int>)
    requires
        in_scene_order(comps, s),
        forall|k: int| #[trigger] s.contains(k) <==> (0 <= k < comps.len() && is_child(comps, p, k)),
    ensures
        children_of(comps, p) == s,
{
    lemma_ordered_is(comps, |i: int| is_child(comps, p, i), s);
}

proof fn lemma_roots_of_is(comps: Seq<ComponentInfo>, s: Seq<int>)
    requires
        in_scene_order(comps, s),
        forall|k: int| #[trigger] s.contains(k) <==> (0 <= k < comps.len() && is_root(comps, k)),
    ensures
        roots_of(comps) == s,
{
    lemma_ordered_is(comps, |i: int| is_root(comps, i), s);
}

/// Weight of scene rows: a group row counts the labels it stands for, any
/// other row counts one.
pub open spec fn row_weight(rows: Seq<SceneRow>) -> int
    decreases rows.len(),
{
    if rows.len() == 0 {
        0
    } else {
        (if rows[0].is_label_group { rows[0].label_group_count as int } else { 1int }) + row_weight(rows.drop_first())
    }
}

/// What the scene rows are when no node is expanded: only the roots are
/// listed, all at depth 0, in scene order (top to bottom, then left to
/// right), each root counted once, whether on its own row or inside a
/// label group; and there are rows exactly when there are components.
pub open spec fn collapsed_scene_ok(comps: Seq<ComponentInfo>, rows: Seq<SceneRow>) -> bool {
    &&& forall|a: int| 0 <= a < rows.len() ==> (#[trigger] rows[a]).depth == 0
    &&& forall|a: int, b: int|
        0 <= a < b < rows.len() ==> before(comps, (#[trigger] rows[a]).comp_idx as int, (#[trigger] rows[b]).comp_idx as int)
    &&& row_weight(rows) == Set::new(|k: int| is_root(comps, k)).len()
    &&& (rows.len() == 0 <==> comps.len() == 0)
}

/// Row `c` occurs among the raw rows from `i` on.
spec fn raw_from(raw: Seq<SceneRow>, i: int, c: usize) -> bool {
    exists|k: int| i <= k < raw.len() && (#[trigger] raw[k]).comp_idx == c
}

/// With nothing expanded, the rows of a list of nodes are their own rows.
proof fn lemma_collapsed_forest(comps: Seq<ComponentInfo>, exp: Seq<(i32, i32, u32, u32)>, list: Seq<int>, bound: nat)
    requires
        exp.len() == 0,
        forall|k: int| 0 <= k < list.len() ==> 0 <= #[trigger] list[k] < comps.len() && measure(comps, list[k]) < bound,
    ensures
        forest_rows(comps, exp, list, 0, bound) == list.map_values(|c: int| node_row(comps, exp, c, 0)),
    decreases list.len(),
{
    if list.len() > 0 {
        lemma_collapsed_forest(comps, exp, list.drop_last(), bound);
        let c = list.last();
        assert(list[list.len() - 1] == c);
        assert(collapsed(exp, comps[c]));
        assert(subtree_rows(comps, exp, c, 0) =~= seq![node_row(comps, exp, c, 0)]);
        assert(list.map_values(|c: int| node_row(comps, exp, c, 0)) =~= list.drop_last().map_values(
            |c: int| node_row(comps, exp, c, 0),
        ).push(node_row(comps, exp, c, 0)));
    }
}

/// With nothing expanded every label group is collapsed, so grouping keeps
/// depth 0 and scene order, and only regroups the weight of the rows.
proof fn lemma_collapsed_grouped(comps: Seq<ComponentInfo>, exp: Seq<(i32, i32, u32, u32)>, raw: Seq<SceneRow>, i: int)
    requires
        exp.len() == 0,
        0 <= i <= raw.len(),
        raw.len() <= usize::MAX,
        forall|k: int| 0 <= k < raw.len() ==> (#[trigger] raw[k]).depth == 0 && !raw[k].is_label_group,
        forall|p: int, q: int|
            0 <= p < q < raw.len() ==> before(comps, (#[trigger] raw[p]).comp_idx as int, (#[trigger] raw[q]).comp_idx as int),
    ensures
        forall|a: int| 0 <= a < grouped_from(comps, exp, raw, i).len() ==> (#[trigger] grouped_from(comps, exp, raw, i)[a]).depth == 0,
        forall|a: int|
            0 <= a < grouped_from(comps, exp, raw, i).len() ==> raw_from(raw, i, (#[trigger] grouped_from(comps, exp, raw, i)[a]).comp_idx),
        forall|a: int, b: int|
            0 <= a < b < grouped_from(comps, exp, raw, i).len() ==> before(
                comps,
                (#[trigger] grouped_from(comps, exp, raw, i)[a]).comp_idx as int,
                (#[trigger] grouped_from(comps, exp, raw, i)[b]).comp_idx as int,
            ),
        row_weight(grouped_from(comps, exp, raw, i)) == raw.len() - i,
        grouped_from(comps, exp, raw, i).len() == 0 <==> i == raw.len(),
    decreases raw.len() - i,
{
    let g = grouped_from(comps, exp, raw, i);
    if i < raw.len() {
        let j0 = run_end(comps, raw, i, raw[i].depth);
        let grouping = is_text_leaf(comps, raw[i]) && j0 - i >= MIN_GROUP && j0 <= raw.len();
        let j = if grouping { j0 } else { i + 1 };
        lemma_collapsed_grouped(comps, exp, raw, j);
        let rest = grouped_from(comps, exp, raw, j);
        let head = g[0];
        if grouping {
            assert(collapsed(exp, comps[raw[i].comp_idx as int]));
            assert(g == seq![head] + rest);
        } else {
            assert(g == seq![raw[i]] + rest);
        }
        assert(g.drop_first() =~= rest);
        assert(head.comp_idx == raw[i].comp_idx && head.depth == 0);
        assert forall|a: int| 0 <= a < g.len() implies raw_from(raw, i, (#[trigger] g[a]).comp_idx) by {
            if a == 0 {
                assert(raw[i].comp_idx == g[a].comp_idx);
            } else {
                assert(g[a] == rest[a - 1]);
                assert(raw_from(raw, j, rest[a - 1].comp_idx));
                let k = choose|k: int| j <= k < raw.len() && (#[trigger] raw[k]).comp_idx == rest[a - 1].comp_idx;
                assert(raw[k].comp_idx == g[a].comp_idx);
            }
        }
        assert forall|a: int| 0 <= a < g.len() implies (#[trigger] g[a]).depth == 0 by {
            if a > 0 {
                assert(g[a] == rest[a - 1]);
            }
        }
        assert forall|a: int, b: int| 0 <= a < b < g.len() implies before(
            comps,
            (#[trigger] g[a]).comp_idx as int,
            (#[trigger] g[b]).comp_idx as int,
        ) by {
            assert(g[b] == rest[b - 1]);
            if a == 0 {
                assert(raw_from(raw, j, rest[b - 1].comp_idx));
                let k = choose|k: int| j <= k < raw.len() && (#[trigger] raw[k]).comp_idx == rest[b - 1].comp_idx;
                assert(before(comps, raw[i].comp_idx as int, raw[k].comp_idx as int));
            } else {
                assert(g[a] == rest[a - 1]);
            }
        }
    }
}

/// A component of the largest area among the first `n` (`n > 0`).
spec fn largest_upto(comps: Seq<ComponentInfo>, n: int) -> int
    decreases n,
{
    if n <= 1 {
        0
    } else {
        let m = largest_upto(comps, n - 1);
        if area(comps[n - 1]) > area(comps[m]) { n - 1 } else { m }
    }
}

proof fn lemma_largest_upto(comps: Seq<ComponentInfo>, n: int)
    requires
        0 < n,
    ensures
        0 <= largest_upto(comps, n) < n,
        forall|k: int| 0 <= k < n ==> area(#[trigger] comps[k]) <= area(comps[largest_upto(comps, n)]),
    decreases n,
{
    if n > 1 {
        lemma_largest_upto(comps, n - 1);
    }
}

/// A parent found among the first `n` components encloses `t`.
proof fn lemma_parent_upto_encloses(comps: Seq<ComponentInfo>, t: ComponentInfo, n: int)
    ensures
        parent_upto(comps, t, n) matches Some(q) ==> 0 <= q < n && encloses(comps[q], t),
    decreases n,
{
    if n > 0 {
        lemma_parent_upto_encloses(comps, t, n - 1);
    }
}

/// Nothing expanded: the scene rows are the roots, see [`collapsed_scene_ok`].
proof fn lemma_collapsed_scene(comps: Seq<ComponentInfo>, exp: Seq<(i32, i32, u32, u32)>)
    requires
        exp.len() == 0,
        comps.len() <= usize::MAX,
        in_scene_order(comps, roots_of(comps)),
        forall|k: int| #[trigger] roots_of(comps).contains(k) <==> (0 <= k < comps.len() && is_root(comps, k)),
    ensures
        collapsed_scene_ok(comps, scene_rows(comps, exp)),
{
    let roots = roots_of(comps);
    let n = comps.len() as int;
    assert forall|k: int| 0 <= k < roots.len() implies 0 <= #[trigger] roots[k] < comps.len() && measure(comps, roots[k]) < n by {
        assert(roots.contains(roots[k]));
        lemma_count_lt_len(comps, area(comps[roots[k]]), n, roots[k]);
    }
    lemma_collapsed_forest(comps, exp, roots, n as nat);
    let raw = scene_raw(comps, exp);
    assert(raw == roots.map_values(|c: int| node_row(comps, exp, c, 0)));
    assert forall|k: int| 0 <= k < raw.len() implies (#[trigger] raw[k]).depth == 0 && !raw[k].is_label_group
        && raw[k].comp_idx as int == roots[k] by {
        assert(0 <= roots[k] < comps.len());
    }
    assert forall|p: int, q: int| 0 <= p < q < raw.len() implies before(
        comps,
        (#[trigger] raw[p]).comp_idx as int,
        (#[trigger] raw[q]).comp_idx as int,
    ) by {
        assert(before(comps, roots[p], roots[q]));
    }
    // Each root once: the list of roots has no repeats.
    assert(roots.no_duplicates()) by {
        assert forall|p: int, q: int| 0 <= p < roots.len() && 0 <= q < roots.len() && p != q implies roots[p] != roots[q] by {
            if p < q {
                assert(before(comps, roots[p], roots[q]));
            } else {
                assert(before(comps, roots[q], roots[p]));
            }
        }
    }
    roots.unique_seq_to_set();
    vstd::set_lib::lemma_int_range(0, n);
    assert(roots.to_set().subset_of(vstd::set_lib::set_int_range(0, n)));
    vstd::set_lib::lemma_len_subset(roots.to_set(), vstd::set_lib::set_int_range(0, n));
    lemma_collapsed_grouped(comps, exp, raw, 0);
    assert(roots.to_set() =~= Set::new(|k: int| is_root(comps, k)));
    // With components there is a root: one of the largest ones.
    if n > 0 {
        lemma_largest_upto(comps, n);
        let m = largest_upto(comps, n);
        lemma_parent_upto_encloses(comps, comps[m], n);
        assert(is_root(comps, m));
        assert(roots.contains(m));
    } else {
        if roots.len() > 0 {
            assert(roots.contains(roots[0]));
        }
    }
}

impl DebugState {
    /// Insert `i`, larger than every listed index, into a list kept in
    /// scene order.
    fn insert_in_order(&self, list: &mut Vec<usize>, i: usize)
        requires
            (i as int) < self.registered_components@.len(),
            in_scene_order(self.registered_components@, as_ints(old(list)@)),
            forall|k: int| 0 <= k < old(list)@.len() ==> old(list)@[k] < i,
        ensures
            in_scene_order(self.registered_components@, as_ints(final(list)@)),
            forall|k: int| 0 <= k < final(list)@.len() ==> final(list)@[k] <= i,
            forall|v: int| #[trigger] as_ints(final(list)@).contains(v) <==> (as_ints(old(list)@).contains(v) || v == i),
    {
        let ghost comps = self.registered_components@;
        let ghost s = as_ints(list@);
        let xi = self.registered_components[i].position.0;
        let yi = self.registered_components[i].position.1;
        let mut p: usize = 0;
        let mut found = false;
        while p < list.len() && !found
            invariant
                p <= list@.len(),
                list@ == old(list)@,
                s == as_ints(list@),
                xi == comps[i as int].position.0,
                yi == comps[i as int].position.1,
                comps == self.registered_components@,
                (i as int) < comps.len(),
                forall|k: int| 0 <= k < list@.len() ==> list@[k] < i,
                forall|k: int| 0 <= k < p ==> !key_lt(comps, i as int, #[trigger] s[k]),
                found ==> p < list@.len() && key_lt(comps, i as int, s[p as int]),
            decreases list@.len() - p + if found { 0int } else { 1int },
        {
            let lp = list[p];
            let xp = self.registered_components[lp].position.0;
            let yp = self.registered_components[lp].position.1;
            if yi < yp || (yi == yp && xi < xp) {
                found = true;
            } else {
                p = p + 1;
            }
        }
        list.insert(p, i);
        proof {
            let t = as_ints(list@);
            assert(t =~= s.insert(p as int, i as int));
            assert forall|a: int, b: int| 0 <= a < b < t.len() implies before(comps, #[trigger] t[a], #[trigger] t[b]) by {
                if b < p {
                    assert(t[a] == s[a] && t[b] == s[b]);
                } else if a > p {
                    assert(t[a] == s[a - 1] && t[b] == s[b - 1]);
                } else if b == p {
                    assert(t[a] == s[a]);
                    assert(!key_lt(comps, i as int, s[a]));
                    assert(s[a] < i);
                } else if a == p {
                    assert(t[b] == s[b - 1]);
                    assert(found);
                    if b - 1 > p {
                        assert(before(comps, s[p as int], s[b - 1]));
                    }
                } else {
                    assert(a < p && p < b);
                    assert(t[a] == s[a] && t[b] == s[b - 1]);
                }
            }
            assert forall|v: int| #[trigger] t.contains(v) <==> (s.contains(v) || v == i) by {
                if t.contains(v) {
                    let k = choose|k: int| 0 <= k < t.len() && t[k] == v;
                    if k < p {
                        assert(s[k] == v);
                    } else if k > p {
                        assert(s[k - 1] == v);
                    }
                }
                if s.contains(v) {
                    let k = choose|k: int| 0 <= k < s.len() && s[k] == v;
                    if k < p {
                        assert(t[k] == v);
                    } else {
                        assert(t[k + 1] == v);
                    }
                }
                if v == i {
                    assert(t[p as int] == v);
                }
            }
            assert forall|k: int| 0 <= k < list@.len() implies list@[k] <= i by {
                if k < p {
                    assert(list@[k] == old(list)@[k]);
                } else if k > p {
                    assert(list@[k] == old(list)@[k - 1]);
                }
            }
        }
    }
}


impl DebugState {
    /// Indices of the direct children of `parent`, in scene order.
    fn child_indices(&self, parent: &ComponentInfo) -> (r: Vec<usize>)
        requires
            all_fit(self.registered_components@),
            edges_fit(*parent),
        ensures
            as_ints(r@) == children_of(self.registered_components@, *parent),
            forall|k: int| 0 <= k < r@.len() ==> (r@[k] as int) < self.registered_components@.len(),
            forall|v: int| #[trigger] as_ints(r@).contains(v) <==> (0 <= v < self.registered_components@.len()
                && is_child(self.registered_components@, *parent, v)),
    {
        let ghost comps = self.registered_components@;
        let px = parent.position.0;
        let py = parent.position.1;
        let px2 = px + parent.size.0 as i32;
        let py2 = py + parent.size.1 as i32;
        assert(parent.size.0 as u64 * parent.size.1 as u64 <= 0xffff_ffffu64 * 0xffff_ffffu64) by (nonlinear_arith)
            requires parent.size.0 <= 0xffff_ffffu32, parent.size.1 <= 0xffff_ffffu32;
        let parent_area = parent.size.0 as u64 * parent.size.1 as u64;
        let mut list: Vec<usize> = Vec::new();
        let mut i: usize = 0;
        while i < self.registered_components.len()
            invariant
                comps == self.registered_components@,
                i <= comps.len(),
                all_fit(comps),
                edges_fit(*parent),
                px == parent.position.0,
                py == parent.position.1,
                px2 == right_edge(*parent),
                py2 == bottom_edge(*parent),
                parent_area == area(*parent),
                in_scene_order(comps, as_ints(list@)),
                forall|k: int| 0 <= k < list@.len() ==> list@[k] < i,
                forall|v: int| #[trigger] as_ints(list@).contains(v) <==> (0 <= v < i && is_child(comps, *parent, v)),
            decreases comps.len() - i,
        {
            let comp = &self.registered_components[i];
            assert(edges_fit(comps[i as int]));
            assert(comp.size.0 as u64 * comp.size.1 as u64 <= 0xffff_ffffu64 * 0xffff_ffffu64) by (nonlinear_arith)
                requires comp.size.0 <= 0xffff_ffffu32, comp.size.1 <= 0xffff_ffffu32;
            let same = comp.position.0 == parent.position.0 && comp.position.1 == parent.position.1
                && comp.size.0 == parent.size.0 && comp.size.1 == parent.size.1;
            let cx = comp.position.0;
            let cy = comp.position.1;
            let cx2 = cx + comp.size.0 as i32;
            let cy2 = cy + comp.size.1 as i32;
            let a = comp.size.0 as u64 * comp.size.1 as u64;
            let inside = !same && a < parent_area && cx >= px && cy >= py && cx2 <= px2 && cy2 <= py2;
            assert(inside == encloses(*parent, comps[i as int]));
            let mut direct = false;
            if inside {
                match self.parent_idx(comp) {
                    Some(q) => {
                        let pq = &self.registered_components[q];
                        direct = pq.position.0 == parent.position.0 && pq.position.1 == parent.position.1
                            && pq.size.0 == parent.size.0 && pq.size.1 == parent.size.1;
                    },
                    None => {},
                }
            }
            assert(direct == is_child(comps, *parent, i as int));
            let ghost old_list = as_ints(list@);
            if direct {
                self.insert_in_order(&mut list, i);
            }
            assert forall|v: int| #[trigger] as_ints(list@).contains(v) <==> (0 <= v < i + 1 && is_child(comps, *parent, v)) by {
                if v < i {
                    assert(as_ints(list@).contains(v) <==> old_list.contains(v));
                }
            }
            i = i + 1;
        }
        proof {
            lemma_children_of_is(comps, *parent, as_ints(list@));
            assert forall|k: int| 0 <= k < list@.len() implies (list@[k] as int) < comps.len() by {
                assert(as_ints(list@).contains(list@[k] as int)) by {
                    assert(as_ints(list@)[k] == list@[k] as int);
                }
            }
        }
        list
    }

    /// The direct spatial children of `parent` (components whose parent is
    /// `parent`), top to bottom, then left to right, then by registration.
    pub fn find_children<'a>(&'a self, parent: &ComponentInfo) -> (r: Vec<&'a ComponentInfo>)
        requires
            all_fit(self.registered_components@),
            edges_fit(*parent),
        ensures
            r@.len() == children_of(self.registered_components@, *parent).len(),
            forall|k: int| #![trigger r@[k]] 0 <= k < r@.len() ==>
                0 <= children_of(self.registered_components@, *parent)[k] < self.registered_components@.len()
                && r@[k] == &self.registered_components@[children_of(self.registered_components@, *parent)[k]],
    {
        let idxs = self.child_indices(parent);
        let mut out: Vec<&'a ComponentInfo> = Vec::new();
        let mut j: usize = 0;
        while j < idxs.len()
            invariant
                j <= idxs@.len(),
                out@.len() == j,
                as_ints(idxs@) == children_of(self.registered_components@, *parent),
                forall|k: int| 0 <= k < idxs@.len() ==> (idxs@[k] as int) < self.registered_components@.len(),
                forall|k: int| 0 <= k < j ==> out@[k] == &self.registered_components@[idxs@[k] as int],
            decreases idxs@.len() - j,
        {
            out.push(&self.registered_components[idxs[j]]);
            j = j + 1;
        }
        proof {
            assert forall|k: int| #![trigger out@[k]] 0 <= k < out@.len() implies
                0 <= children_of(self.registered_components@, *parent)[k] < self.registered_components@.len()
                && out@[k] == &self.registered_components@[children_of(self.registered_components@, *parent)[k]] by {
                assert(as_ints(idxs@)[k] == idxs@[k] as int);
            }
        }
        out
    }

    /// Indices of the root components (no enclosing component), in scene
    /// order.
    fn root_indices(&self) -> (r: Vec<usize>)
        requires
            all_fit(self.registered_components@),
        ensures
            as_ints(r@) == roots_of(self.registered_components@),
            forall|k: int| 0 <= k < r@.len() ==> (r@[k] as int) < self.registered_components@.len(),
            in_scene_order(self.registered_components@, roots_of(self.registered_components@)),
            forall|k: int| #[trigger] roots_of(self.registered_components@).contains(k) <==> (0 <= k
                < self.registered_components@.len() && is_root(self.registered_components@, k)),
    {
        let ghost comps = self.registered_components@;
        let mut list: Vec<usize> = Vec::new();
        let mut i: usize = 0;
        while i < self.registered_components.len()
            invariant
                comps == self.registered_components@,
                i <= comps.len(),
                all_fit(comps),
                in_scene_order(comps, as_ints(list@)),
                forall|k: int| 0 <= k < list@.len() ==> list@[k] < i,
                forall|v: int| #[trigger] as_ints(list@).contains(v) <==> (0 <= v < i && is_root(comps, v)),
            decreases comps.len() - i,
        {
            assert(edges_fit(comps[i as int]));
            let root = self.parent_idx(&self.registered_components[i]).is_none();
            let ghost old_list = as_ints(list@);
            if root {
                self.insert_in_order(&mut list, i);
            }
            assert forall|v: int| #[trigger] as_ints(list@).contains(v) <==> (0 <= v < i + 1 && is_root(comps, v)) by {
                if v < i {
                    assert(as_ints(list@).contains(v) <==> old_list.contains(v));
                }
            }
            i = i + 1;
        }
        proof {
            lemma_roots_of_is(comps, as_ints(list@));
            assert forall|k: int| 0 <= k < list@.len() implies (list@[k] as int) < comps.len() by {
                assert(as_ints(list@).contains(list@[k] as int)) by {
                    assert(as_ints(list@)[k] == list@[k] as int);
                }
            }
        }
        list
    }

    /// Index of the first registered component with the same box as `t`,
    /// which is registered itself.
    fn first_index_with_box(&self, t: &ComponentInfo) -> (r: usize)
        requires
            exists|k: int| 0 <= k < self.registered_components@.len() && same_box(#[trigger] self.registered_components@[k], *t),
        ensures
            r as int == first_with_box(self.registered_components@, *t, 0),
            (r as int) < self.registered_components@.len(),
            same_box(self.registered_components@[r as int], *t),
    {
        let ghost comps = self.registered_components@;
        let mut k: usize = 0;
        while k < self.registered_components.len()
            invariant
                comps == self.registered_components@,
                k <= comps.len(),
                first_with_box(comps, *t, 0) == first_with_box(comps, *t, k as int),
                forall|j: int| 0 <= j < k ==> !same_box(#[trigger] comps[j], *t),
            decreases comps.len() - k,
        {
            let c = &self.registered_components[k];
            if c.position.0 == t.position.0 && c.position.1 == t.position.1 && c.size.0 == t.size.0 && c.size.1 == t.size.1 {
                return k;
            }
            k = k + 1;
        }
        proof {
            let w = choose|j: int| 0 <= j < comps.len() && same_box(#[trigger] comps[j], *t);
            assert(!same_box(comps[w], *t));
        }
        k
    }
}


/// A child of node `idx`, named by the first component with its box, is
/// smaller than `idx` in [`measure`].
proof fn lemma_child_measure(comps: Seq<ComponentInfo>, idx: int, c: int)
    requires
        0 <= idx < comps.len(),
        is_child(comps, comps[idx], c),
    ensures
        0 <= first_with_box(comps, comps[c], 0) < comps.len(),
        measure(comps, first_with_box(comps, comps[c], 0)) < measure(comps, idx),
{
    lemma_first_with_box(comps, comps[c], 0, c);
    let f = first_with_box(comps, comps[c], 0);
    lemma_count_strict(comps, area(comps[f]), area(comps[idx]), comps.len() as int, f);
}

proof fn lemma_first_with_box(comps: Seq<ComponentInfo>, t: ComponentInfo, k: int, w: int)
    requires
        0 <= k <= w < comps.len(),
        same_box(comps[w], t),
    ensures
        k <= first_with_box(comps, t, k) <= w,
        same_box(comps[first_with_box(comps, t, k)], t),
    decreases w - k,
{
    if !same_box(comps[k], t) {
        lemma_first_with_box(comps, t, k + 1, w);
    }
}

impl DebugState {
    /// Append the rows of the subtree at `idx`.
    fn visit(&self, idx: usize, depth: usize, raw: &mut Vec<SceneRow>)
        requires
            all_fit(self.registered_components@),
            (idx as int) < self.registered_components@.len(),
            depth + measure(self.registered_components@, idx as int) < self.registered_components@.len(),
        ensures
            final(raw)@ == old(raw)@ + subtree_rows(self.registered_components@, self.expanded_nodes@, idx as int, depth as int),
            forall|k: int| old(raw)@.len() <= k < final(raw)@.len() ==> (#[trigger] final(raw)@[k].comp_idx as int) < self.registered_components@.len(),
        decreases measure(self.registered_components@, idx as int),
    {
        let ghost comps = self.registered_components@;
        let ghost exp = self.expanded_nodes@;
        let comp = &self.registered_components[idx];
        assert(edges_fit(comps[idx as int]));
        let children = self.child_indices(comp);
        let has_children = children.len() > 0;
        let is_collapsed = self.is_node_collapsed(comp);
        let row = SceneRow {
            comp_idx: idx,
            depth,
            has_children,
            is_collapsed,
            is_label_group: false,
            label_group_count: 0,
        };
        assert(row == node_row(comps, exp, idx as int, depth as int));
        raw.push(row);
        let ghost list = child_list(comps, idx as int);
        if !is_collapsed && has_children {
            let mut j: usize = 0;
            while j < children.len()
                invariant
                    comps == self.registered_components@,
                    exp == self.expanded_nodes@,
                    all_fit(comps),
                    (idx as int) < comps.len(),
                    depth + measure(comps, idx as int) < comps.len(),
                    list == child_list(comps, idx as int),
                    as_ints(children@) == children_of(comps, comps[idx as int]),
                    forall|k: int| 0 <= k < children@.len() ==> (children@[k] as int) < comps.len(),
                    forall|v: int| #[trigger] as_ints(children@).contains(v) <==> (0 <= v < comps.len()
                        && is_child(comps, comps[idx as int], v)),
                    j <= children@.len(),
                    raw@ == old(raw)@ + seq![row] + forest_rows(comps, exp, list.take(j as int), depth + 1, measure(comps, idx as int)),
                    forall|k: int| old(raw)@.len() <= k < raw@.len() ==> (#[trigger] raw@[k].comp_idx as int) < comps.len(),
                decreases children@.len() - j,
            {
                let cj = children[j];
                assert(as_ints(children@)[j as int] == cj as int);
                assert(as_ints(children@).contains(cj as int));
                proof {
                    lemma_child_measure(comps, idx as int, cj as int);
                }
                let c = self.first_index_with_box(&self.registered_components[cj]);
                assert(list[j as int] == c as int);
                let n = self.registered_components.len();
                assert(measure(comps, c as int) < measure(comps, idx as int));
                assert(depth + 1 < n);
                self.visit(c, depth + 1, raw);
                proof {
                    let lt = list.take(j + 1);
                    assert(lt.drop_last() =~= list.take(j as int));
                    assert(lt.last() == c as int);
                }
                j = j + 1;
            }
            assert(list.take(children@.len() as int) =~= list);
        }
    }
}


impl DebugState {
    /// Whether `r` is the row of a leaf `Label` or `Text` component.
    fn text_leaf(&self, r: &SceneRow, label: &String, text: &String) -> (b: bool)
        requires
            label@ == "Label"@,
            text@ == "Text"@,
        ensures
            b == is_text_leaf(self.registered_components@, *r),
    {
        if r.has_children || r.is_label_group || r.comp_idx >= self.registered_components.len() {
            return false;
        }
        let t = &self.registered_components[r.comp_idx].component_type;
        *t == *label || *t == *text
    }

    /// Build the flat list of visible scene rows.
    ///
    /// Depth first from the roots in scene order; the children of collapsed
    /// nodes are left out. Then each run of at least [`MIN_GROUP`] leaf
    /// `Label`/`Text` rows at one depth gets a group row in front of it, and
    /// the run is hidden when the group's first label is collapsed. With no
    /// node expanded only the roots are listed (see [`collapsed_scene_ok`]).
    pub fn build_scene_rows(&self) -> (r: Vec<SceneRow>)
        requires
            all_fit(self.registered_components@),
        ensures
            r@ == scene_rows(self.registered_components@, self.expanded_nodes@),
            forall|k: int| 0 <= k < r@.len() ==> (#[trigger] r@[k].comp_idx as int) < self.registered_components@.len(),
            self.expanded_nodes@.len() == 0 ==> collapsed_scene_ok(self.registered_components@, r@),
    {
        let ghost comps = self.registered_components@;
        let ghost exp = self.expanded_nodes@;
        let roots = self.root_indices();
        let n = self.registered_components.len();
        let mut raw: Vec<SceneRow> = Vec::new();
        let mut j: usize = 0;
        while j < roots.len()
            invariant
                comps == self.registered_components@,
                exp == self.expanded_nodes@,
                n == comps.len(),
                all_fit(comps),
                as_ints(roots@) == roots_of(comps),
                forall|k: int| 0 <= k < roots@.len() ==> (roots@[k] as int) < comps.len(),
                j <= roots@.len(),
                raw@ == forest_rows(comps, exp, roots_of(comps).take(j as int), 0, n as nat),
                forall|k: int| 0 <= k < raw@.len() ==> (#[trigger] raw@[k].comp_idx as int) < comps.len(),
            decreases roots@.len() - j,
        {
            let r = roots[j];
            assert(as_ints(roots@)[j as int] == r as int);
            proof {
                lemma_count_lt_len(comps, area(comps[r as int]), n as int, r as int);
            }
            self.visit(r, 0, &mut raw);
            proof {
                let lt = roots_of(comps).take(j + 1);
                assert(lt.drop_last() =~= roots_of(comps).take(j as int));
                assert(lt.last() == r as int);
            }
            j = j + 1;
        }
        assert(roots_of(comps).take(roots@.len() as int) =~= roots_of(comps));
        assert(raw@ == scene_raw(comps, exp));
        proof {
            if exp.len() == 0 {
                lemma_collapsed_scene(comps, exp);
            }
        }

        let label = "Label".to_owned();
        let text = "Text".to_owned();
        let mut result: Vec<SceneRow> = Vec::new();
        let mut i: usize = 0;
        while i < raw.len()
            invariant
                comps == self.registered_components@,
                exp == self.expanded_nodes@,
                label@ == "Label"@,
                text@ == "Text"@,
                i <= raw@.len(),
                grouped_from(comps, exp, raw@, 0) == result@ + grouped_from(comps, exp, raw@, i as int),
                forall|k: int| 0 <= k < raw@.len() ==> (#[trigger] raw@[k].comp_idx as int) < comps.len(),
                forall|k: int| 0 <= k < result@.len() ==> (#[trigger] result@[k].comp_idx as int) < comps.len(),
            decreases raw@.len() - i,
        {
            let row = raw[i];
            let leaf = self.text_leaf(&row, &label, &text);
            let mut grouped = false;
            if leaf {
                let mut e: usize = i;
                let mut stop = false;
                while e < raw.len() && !stop
                    invariant
                        comps == self.registered_components@,
                        label@ == "Label"@,
                        text@ == "Text"@,
                        i <= e <= raw@.len(),
                        row == raw@[i as int],
                        !stop ==> run_end(comps, raw@, i as int, row.depth) == run_end(comps, raw@, e as int, row.depth),
                        stop ==> run_end(comps, raw@, i as int, row.depth) == e,
                    decreases raw@.len() - e + if stop { 0int } else { 1int },
                {
                    let re = raw[e];
                    if re.depth == row.depth && self.text_leaf(&re, &label, &text) {
                        e = e + 1;
                    } else {
                        stop = true;
                    }
                }
                assert(run_end(comps, raw@, i as int, row.depth) == e);
                let count = e - i;
                if count >= MIN_GROUP {
                    let group_collapsed = self.is_node_collapsed(&self.registered_components[row.comp_idx]);
                    let ghost before = result@;
                    let head = SceneRow {
                        comp_idx: row.comp_idx,
                        depth: row.depth,
                        has_children: false,
                        is_collapsed: group_collapsed,
                        is_label_group: true,
                        label_group_count: count,
                    };
                    result.push(head);
                    if !group_collapsed {
                        let mut k: usize = i;
                        while k < e
                            invariant
                                i <= k <= e <= raw@.len(),
                                result@ == before + seq![head] + raw@.subrange(i as int, k as int),
                                forall|k: int| 0 <= k < raw@.len() ==> (#[trigger] raw@[k].comp_idx as int) < comps.len(),
                                forall|k: int| 0 <= k < result@.len() ==> (#[trigger] result@[k].comp_idx as int) < comps.len(),
                            decreases e - k,
                        {
                            result.push(raw[k]);
                            assert(raw@.subrange(i as int, k + 1) =~= raw@.subrange(i as int, k as int).push(raw@[k as int]));
                            k = k + 1;
                        }
                    }
                    assert(grouped_from(comps, exp, raw@, i as int) == seq![head] + (if !group_collapsed {
                        raw@.subrange(i as int, e as int)
                    } else {
                        Seq::empty()
                    }) + grouped_from(comps, exp, raw@, e as int));
                    assert(result@ == before + seq![head] + (if !group_collapsed {
                        raw@.subrange(i as int, e as int)
                    } else {
                        Seq::empty()
                    }));
                    i = e;
                    grouped = true;
                }
            }
            if !grouped {
                result.push(row);
                i = i + 1;
            }
        }
        result
    }
}

} // verus!
