use vstd::prelude::*;
use vstd::string::StringExecFns;
use crate::monitor::{MonitorInformation, MonitorInformationView};
use crate::output_state::configuration_view;
use crate::text::{lemma_str_lt_order, str_lt};
use crate::keyed::{
    entries_map, entry_keys, find_key, keys_strictly_sorted, lemma_key_position,
    lemma_sorted_keys_unique, sorted_insert,
};
use crate::position_tree::{
    insert_under, is_rooted, level_order, level_order_ids, node_data, node_id_target, refers_to,
    render_tree, root_id, tree_identity, tree_nodes, tree_rendering, tree_with_root,
    visits_each_once,
};
use id_tree::{NodeId, Tree};

verus! {

/// How a screen of a profile is rotated.
#[derive(Debug, Clone, Copy, PartialEq, Eq, Structural)]
pub enum ScreenRotation {
    Landscape,
    Portrait,
    LandscapeReversed,
    PortraitReversed,
}

/// Where a screen sits relative to another screen of its profile, named by
/// identifier; `Root` has no such screen.
#[derive(Debug)]
pub enum ScreenPositionRelative {
    Root,
    Over(String),
    Under(String),
    Left(String),
    Right(String),
    LeftOver(String),
    LeftUnder(String),
    RightOver(String),
    RightUnder(String),
}

/// The identifier of the screen that `position` is relative to.
pub open spec fn position_parent(position: ScreenPositionRelative) -> Option<Seq<char>> {
    match position {
        ScreenPositionRelative::Root => None,
        ScreenPositionRelative::Over(i) => Some(i@),
        ScreenPositionRelative::Under(i) => Some(i@),
        ScreenPositionRelative::Left(i) => Some(i@),
        ScreenPositionRelative::Right(i) => Some(i@),
        ScreenPositionRelative::LeftOver(i) => Some(i@),
        ScreenPositionRelative::LeftUnder(i) => Some(i@),
        ScreenPositionRelative::RightOver(i) => Some(i@),
        ScreenPositionRelative::RightUnder(i) => Some(i@),
    }
}

impl ScreenPositionRelative {
    /// The identifier of the screen this position is relative to.
    pub fn parent(&self) -> (r: Option<&str>)
        ensures
            match r {
                Some(p) => position_parent(*self) == Some(p@),
                None => position_parent(*self) is None,
            },
    {
        match self {
            ScreenPositionRelative::Root => None,
            ScreenPositionRelative::Over(identifier) => Some(identifier.as_str()),
            ScreenPositionRelative::Under(identifier) => Some(identifier.as_str()),
            ScreenPositionRelative::Left(identifier) => Some(identifier.as_str()),
            ScreenPositionRelative::Right(identifier) => Some(identifier.as_str()),
            ScreenPositionRelative::LeftOver(identifier) => Some(identifier.as_str()),
            ScreenPositionRelative::LeftUnder(identifier) => Some(identifier.as_str()),
            ScreenPositionRelative::RightOver(identifier) => Some(identifier.as_str()),
            ScreenPositionRelative::RightUnder(identifier) => Some(identifier.as_str()),
        }
    }
}

/// One screen of a profile.
#[derive(Debug)]
pub struct ScreenConfiguration {
    /// The connector name of the monitor, or its make and serial number
    /// joined by a space.
    pub identifier: String,
    /// The IEEE-754 bits of the scale factor.
    pub scale: u32,
    pub rotation: ScreenRotation,
    pub display_output_code: Option<u32>,
    pub wallpaper: String,
    pub position: ScreenPositionRelative,
    pub enabled: bool,
}

/// A named arrangement of screens, with the commands to run, in order,
/// when it is applied.
#[derive(Debug)]
pub struct ScreensProfile {
    pub screens: Vec<ScreenConfiguration>,
    pub skripts: Vec<String>,
}

impl ScreenConfiguration {
    pub fn identifier(&self) -> (r: &String)
        ensures
            *r == self.identifier,
    {
        &self.identifier
    }

    pub fn scale(&self) -> (r: &u32)
        ensures
            *r == self.scale,
    {
        &self.scale
    }

    pub fn rotation(&self) -> (r: &ScreenRotation)
        ensures
            *r == self.rotation,
    {
        &self.rotation
    }

    pub fn display_output_code(&self) -> (r: &Option<u32>)
        ensures
            *r == self.display_output_code,
    {
        &self.display_output_code
    }

    pub fn wallpaper(&self) -> (r: &String)
        ensures
            *r == self.wallpaper,
    {
        &self.wallpaper
    }

    pub fn position(&self) -> (r: &ScreenPositionRelative)
        ensures
            *r == self.position,
    {
        &self.position
    }

    pub fn enabled(&self) -> (r: &bool)
        ensures
            *r == self.enabled,
    {
        &self.enabled
    }
}

impl ScreensProfile {
    pub fn screens(&self) -> (r: &Vec<ScreenConfiguration>)
        ensures
            *r == self.screens,
    {
        &self.screens
    }

    pub fn skripts(&self) -> (r: &Vec<String>)
        ensures
            *r == self.skripts,
    {
        &self.skripts
    }
}

/// The label of a monitor by make and serial number: the make, a space, and
/// the serial number (nothing when the monitor reports none).
pub open spec fn make_serial_label(m: MonitorInformationView) -> Seq<char> {
    m.make + seq![' '] + match m.serial {
        Some(s) => s,
        None => Seq::empty(),
    }
}

/// Whether the screen `identifier` names the monitor `m`: by its connector
/// name, or by its make and serial number.
pub open spec fn identifies(identifier: Seq<char>, m: MonitorInformationView) -> bool {
    identifier == m.name || identifier == make_serial_label(m)
}

/// Whether some attached monitor answers to `identifier`.
pub open spec fn is_attached(identifier: Seq<char>, heads: Seq<MonitorInformationView>) -> bool {
    exists|j: int| 0 <= j < heads.len() && identifies(identifier, heads[j])
}

/// Whether every screen of `screens` is attached.
pub open spec fn all_attached(
    screens: Seq<ScreenConfiguration>,
    heads: Seq<MonitorInformationView>,
) -> bool {
    forall|i: int| 0 <= i < screens.len() ==> is_attached(#[trigger] screens[i].identifier@, heads)
}

/// The label of `m` by make and serial number.
pub fn monitor_label(m: &MonitorInformation) -> (label: String)
    ensures
        label@ == make_serial_label(m@),
{
    let mut label = m.make.clone();
    let sep = " ";
    proof {
        reveal_strlit(" ");
        assert(sep@ =~= seq![' ']);
    }
    label.append(sep);
    match &m.serial {
        Some(serial) => label.append(serial.as_str()),
        None => {
            assert(label@ =~= label@ + Seq::<char>::empty());
        },
    }
    label
}

/// Whether some monitor of `heads` answers to `identifier`.
pub fn find_attached(identifier: &String, heads: &Vec<MonitorInformation>) -> (r: bool)
    ensures
        r == is_attached(identifier@, configuration_view(heads@)),
{
    let ghost hv = configuration_view(heads@);
    for j in 0..heads.len()
        invariant
            hv == configuration_view(heads@),
            forall|k: int| 0 <= k < j ==> !identifies(identifier@, #[trigger] hv[k]),
    {
        let m = &heads[j];
        if *identifier == m.name || *identifier == monitor_label(m) {
            assert(identifies(identifier@, hv[j as int]));
            return true;
        }
    }
    false
}

impl ScreensProfile {
    /// Whether every screen of the profile is attached.
    pub fn is_connected(&self, head_config: &Vec<MonitorInformation>) -> (connected: bool)
        ensures
            connected == all_attached(self.screens@, configuration_view(head_config@)),
    {
        for i in 0..self.screens.len()
            invariant
                forall|k: int| 0 <= k < i ==> is_attached(
                    #[trigger] self.screens@[k].identifier@,
                    configuration_view(head_config@),
                ),
        {
            let screen_found = find_attached(&self.screens[i].identifier, head_config);
            if !screen_found {
                return false;
            }
        }
        true
    }
}


/// The last screen among the first `n` of `screens` with `identifier` whose
/// monitor is attached.
pub open spec fn screen_for(
    screens: Seq<ScreenConfiguration>,
    heads: Seq<MonitorInformationView>,
    identifier: Seq<char>,
    n: int,
) -> Option<int>
    decreases n,
{
    if n <= 0 {
        None
    } else if screens[n - 1].identifier@ == identifier && is_attached(identifier, heads) {
        Some(n - 1)
    } else {
        screen_for(screens, heads, identifier, n - 1)
    }
}

/// The screen that the layout tree places for `identifier`: the last
/// screen of the profile with that identifier, if its monitor is attached.
pub open spec fn placed_screen(
    screens: Seq<ScreenConfiguration>,
    heads: Seq<MonitorInformationView>,
    identifier: Seq<char>,
) -> Option<int> {
    screen_for(screens, heads, identifier, screens.len() as int)
}

/// The identifiers of the placed screens, in the order of strings.
pub open spec fn placed_identifiers(
    screens: Seq<ScreenConfiguration>,
    heads: Seq<MonitorInformationView>,
) -> Seq<Seq<char>> {
    choose|keys: Seq<Seq<char>>|
        keys_strictly_sorted(keys) && forall|k: Seq<char>|
            keys.contains(k) <==> placed_screen(screens, heads, k) is Some
}

/// The data of the root of the layout tree.
pub open spec fn root_label() -> Seq<char> {
    seq!['R', 'o', 'o', 't']
}

/// The first position in `order` whose node holds `identifier`.
pub open spec fn first_with_data(
    nodes: Seq<(Seq<char>, int)>,
    order: Seq<int>,
    identifier: Seq<char>,
) -> Option<int>
    decreases order.len(),
{
    if order.len() == 0 {
        None
    } else if nodes[order[0]].0 == identifier {
        Some(order[0])
    } else {
        first_with_data(nodes, order.drop_first(), identifier)
    }
}

/// The parent of the screen placed for `identifier`, when that parent is
/// itself placed.
pub open spec fn placed_parent(
    screens: Seq<ScreenConfiguration>,
    heads: Seq<MonitorInformationView>,
    identifier: Seq<char>,
) -> Option<Seq<char>> {
    match placed_screen(screens, heads, identifier) {
        Some(si) => match position_parent(screens[si].position) {
            Some(p) => if placed_screen(screens, heads, p) is Some {
                Some(p)
            } else {
                None
            },
            None => None,
        },
        None => None,
    }
}

/// Placing `identifier` into the tree with `nodes`, of which the
/// identifiers `added` were placed before: an identifier placed before is
/// looked up (the first node with its data in level order); otherwise its
/// placed parent is placed first and the new node hangs under it, or under
/// the root when there is no placed parent. Gives the nodes, the placed
/// identifiers and the position of the node for `identifier`.
pub open spec fn place(
    screens: Seq<ScreenConfiguration>,
    heads: Seq<MonitorInformationView>,
    identifier: Seq<char>,
    nodes: Seq<(Seq<char>, int)>,
    added: Seq<Seq<char>>,
    fuel: nat,
) -> (Seq<(Seq<char>, int)>, Seq<Seq<char>>, Option<int>)
    decreases fuel,
{
    if added.contains(identifier) {
        (nodes, added, first_with_data(nodes, level_order(nodes, 0), identifier))
    } else if placed_screen(screens, heads, identifier) is None {
        (nodes, added, None)
    } else {
        match placed_parent(screens, heads, identifier) {
            Some(p) => if fuel == 0 {
                (nodes, added, None)
            } else {
                let r = place(screens, heads, p, nodes, added, (fuel - 1) as nat);
                (r.0.push((identifier, r.2->0)), r.1.push(identifier), Some(r.0.len() as int))
            },
            None => (nodes.push((identifier, 0)), added.push(identifier), Some(nodes.len() as int)),
        }
    }
}

/// Placing each of `keys` in turn.
pub open spec fn place_all(
    screens: Seq<ScreenConfiguration>,
    heads: Seq<MonitorInformationView>,
    keys: Seq<Seq<char>>,
    nodes: Seq<(Seq<char>, int)>,
    added: Seq<Seq<char>>,
    fuel: nat,
) -> (Seq<(Seq<char>, int)>, Seq<Seq<char>>)
    decreases keys.len(),
{
    if keys.len() == 0 {
        (nodes, added)
    } else {
        let r = place(screens, heads, keys[0], nodes, added, fuel);
        place_all(screens, heads, keys.drop_first(), r.0, r.1, fuel)
    }
}

/// The layout tree of a profile: a root labelled `Root`, then every placed
/// identifier, in the order of strings.
pub open spec fn layout_tree(
    screens: Seq<ScreenConfiguration>,
    heads: Seq<MonitorInformationView>,
) -> Seq<(Seq<char>, int)> {
    place_all(
        screens,
        heads,
        placed_identifiers(screens, heads),
        seq![(root_label(), -1int)],
        Seq::empty(),
        screens.len(),
    ).0
}

/// The chain of placed parents from `identifier` ends within `fuel` steps.
pub open spec fn chain_ends(
    screens: Seq<ScreenConfiguration>,
    heads: Seq<MonitorInformationView>,
    identifier: Seq<char>,
    fuel: nat,
) -> bool
    decreases fuel,
{
    match placed_parent(screens, heads, identifier) {
        Some(p) => fuel > 0 && chain_ends(screens, heads, p, (fuel - 1) as nat),
        None => true,
    }
}

/// No placed screen is, through the chain of its placed parents, relative
/// to itself.
pub open spec fn positions_acyclic(
    screens: Seq<ScreenConfiguration>,
    heads: Seq<MonitorInformationView>,
) -> bool {
    forall|k: Seq<char>|
        placed_screen(screens, heads, k) is Some ==> chain_ends(
            screens,
            heads,
            k,
            screens.len(),
        )
}

pub open spec fn strings_view(v: Seq<String>) -> Seq<Seq<char>> {
    v.map_values(|s: String| s@)
}

/// Every node but the root hangs under the node of its placed parent, or
/// under the root when it has none.
pub open spec fn parent_links_ok(
    nodes: Seq<(Seq<char>, int)>,
    screens: Seq<ScreenConfiguration>,
    heads: Seq<MonitorInformationView>,
) -> bool {
    forall|j: int|
        1 <= j < nodes.len() ==> match placed_parent(screens, heads, #[trigger] nodes[j].0) {
            Some(p) => nodes[nodes[j].1].0 == p,
            None => nodes[j].1 == 0,
        }
}

/// The state of the tree while it is being built: the root first, then one
/// node for each identifier of `added`, in that order, none twice, each a
/// placed identifier, each under the right parent.
pub open spec fn tree_state_ok(
    nodes: Seq<(Seq<char>, int)>,
    added: Seq<Seq<char>>,
    screens: Seq<ScreenConfiguration>,
    heads: Seq<MonitorInformationView>,
) -> bool {
    &&& is_rooted(nodes)
    &&& nodes[0] == (root_label(), -1int)
    &&& nodes.len() == added.len() + 1
    &&& forall|j: int| 1 <= j < nodes.len() ==> #[trigger] nodes[j].0 == added[j - 1]
    &&& forall|a: int, b: int|
        0 <= a < added.len() && 0 <= b < added.len() && a != b ==> added[a] != added[b]
    &&& forall|a: int| 0 <= a < added.len() ==> placed_screen(screens, heads, #[trigger] added[a]) is Some
    &&& parent_links_ok(nodes, screens, heads)
}

/// Following placed parents `n` times from `from` arrives at `to`.
pub open spec fn reaches(
    screens: Seq<ScreenConfiguration>,
    heads: Seq<MonitorInformationView>,
    from: Seq<char>,
    to: Seq<char>,
    n: nat,
) -> bool
    decreases n,
{
    if n == 0 {
        from == to
    } else {
        match placed_parent(screens, heads, from) {
            Some(q) => reaches(screens, heads, q, to, (n - 1) as nat),
            None => false,
        }
    }
}

/// Following placed parents from `from` arrives at `to` within `fuel` steps.
pub open spec fn reached_within(
    screens: Seq<ScreenConfiguration>,
    heads: Seq<MonitorInformationView>,
    from: Seq<char>,
    to: Seq<char>,
    fuel: nat,
) -> bool {
    exists|n: nat| n <= fuel && reaches(screens, heads, from, to, n)
}

proof fn lemma_chain_ends_reaches(
    screens: Seq<ScreenConfiguration>,
    heads: Seq<MonitorInformationView>,
    a: Seq<char>,
    b: Seq<char>,
    n: nat,
    g: nat,
)
    requires
        chain_ends(screens, heads, a, g),
        reaches(screens, heads, a, b, n),
    ensures
        n <= g,
        chain_ends(screens, heads, b, (g - n) as nat),
    decreases n,
{
    if n > 0 {
        let q = placed_parent(screens, heads, a)->0;
        lemma_chain_ends_reaches(screens, heads, q, b, (n - 1) as nat, (g - 1) as nat);
    }
}

/// A chain of placed parents that ends never comes back to where it began.
proof fn lemma_no_cycle(
    screens: Seq<ScreenConfiguration>,
    heads: Seq<MonitorInformationView>,
    x: Seq<char>,
    m: nat,
    g: nat,
)
    requires
        chain_ends(screens, heads, x, g),
        m > 0,
    ensures
        !reaches(screens, heads, x, x, m),
    decreases g,
{
    if reaches(screens, heads, x, x, m) {
        lemma_chain_ends_reaches(screens, heads, x, x, m, g);
        lemma_no_cycle(screens, heads, x, m, (g - m) as nat);
    }
}

/// A chain of placed parents along which a numbering goes down at every
/// step ends within the number of its start.
proof fn lemma_chain_ends_by_rank(
    screens: Seq<ScreenConfiguration>,
    heads: Seq<MonitorInformationView>,
    rank: spec_fn(Seq<char>) -> nat,
    k: Seq<char>,
    f: nat,
)
    requires
        forall|x: Seq<char>|
            #[trigger] placed_parent(screens, heads, x) is Some ==> rank(
                placed_parent(screens, heads, x)->0,
            ) < rank(x),
        rank(k) <= f,
    ensures
        chain_ends(screens, heads, k, f),
    decreases f,
{
    match placed_parent(screens, heads, k) {
        Some(p) => {
            lemma_chain_ends_by_rank(screens, heads, rank, p, (f - 1) as nat);
        },
        None => {},
    }
}

/// When the placed screens can be numbered below the number of screens so
/// that every screen is numbered above the placed screen it is positioned
/// relative to, the positions have no cycle.
pub proof fn lemma_ranked_positions_are_acyclic(
    screens: Seq<ScreenConfiguration>,
    heads: Seq<MonitorInformationView>,
    rank: spec_fn(Seq<char>) -> nat,
)
    requires
        forall|k: Seq<char>|
            #[trigger] placed_screen(screens, heads, k) is Some ==> rank(k) < screens.len(),
        forall|k: Seq<char>|
            #[trigger] placed_parent(screens, heads, k) is Some ==> rank(
                placed_parent(screens, heads, k)->0,
            ) < rank(k),
    ensures
        positions_acyclic(screens, heads),
{
    assert forall|k: Seq<char>| placed_screen(screens, heads, k) is Some implies chain_ends(
        screens,
        heads,
        k,
        screens.len(),
    ) by {
        lemma_chain_ends_by_rank(screens, heads, rank, k, screens.len());
    }
}

/// A chain of placed parents that does not end within `f` steps: the
/// `f + 1` identifiers it passes, each with a placed parent.
proof fn lemma_long_walk(
    screens: Seq<ScreenConfiguration>,
    heads: Seq<MonitorInformationView>,
    k: Seq<char>,
    f: nat,
) -> (w: Seq<Seq<char>>)
    requires
        !chain_ends(screens, heads, k, f),
    ensures
        w.len() == f + 1,
        w[0] == k,
        forall|j: int| 0 <= j < w.len() ==> #[trigger] placed_parent(screens, heads, w[j]) is Some,
        forall|j: int| 0 <= j < f ==> placed_parent(screens, heads, #[trigger] w[j]) == Some(w[j + 1]),
    decreases f,
{
    let p = placed_parent(screens, heads, k)->0;
    if f == 0 {
        seq![k]
    } else {
        let rest = lemma_long_walk(screens, heads, p, (f - 1) as nat);
        let w = seq![k] + rest;
        assert forall|j: int| 0 <= j < w.len() implies #[trigger] placed_parent(screens, heads, w[j]) is Some by {
            if j > 0 {
                assert(w[j] == rest[j - 1]);
            }
        }
        assert forall|j: int| 0 <= j < f implies placed_parent(screens, heads, #[trigger] w[j]) == Some(
            w[j + 1],
        ) by {
            assert(w[j + 1] == rest[j]);
            if j > 0 {
                assert(w[j] == rest[j - 1]);
            }
        }
        w
    }
}

/// Along such a walk, each identifier reaches every later one.
proof fn lemma_walk_reaches(
    screens: Seq<ScreenConfiguration>,
    heads: Seq<MonitorInformationView>,
    w: Seq<Seq<char>>,
    i: int,
    j: int,
)
    requires
        0 <= i <= j < w.len(),
        forall|t: int| 0 <= t < w.len() - 1 ==> placed_parent(screens, heads, #[trigger] w[t]) == Some(w[t + 1]),
    ensures
        reaches(screens, heads, w[i], w[j], (j - i) as nat),
    decreases j - i,
{
    if i < j {
        lemma_walk_reaches(screens, heads, w, i + 1, j);
        assert(placed_parent(screens, heads, w[i]) == Some(w[i + 1]));
    }
}

/// The positions have no cycle exactly when no placed screen comes back to
/// itself by following, one or more times, the placed screen it is
/// positioned relative to.
pub proof fn lemma_acyclic_iff_no_screen_reaches_itself(
    screens: Seq<ScreenConfiguration>,
    heads: Seq<MonitorInformationView>,
)
    ensures
        positions_acyclic(screens, heads) <==> forall|k: Seq<char>, m: nat|
            placed_screen(screens, heads, k) is Some && m > 0 ==> !#[trigger] reaches(
                screens,
                heads,
                k,
                k,
                m,
            ),
{
    if positions_acyclic(screens, heads) {
        assert forall|k: Seq<char>, m: nat|
            placed_screen(screens, heads, k) is Some && m > 0 implies !#[trigger] reaches(
            screens,
            heads,
            k,
            k,
            m,
        ) by {
            lemma_no_cycle(screens, heads, k, m, screens.len());
        }
    } else if forall|k: Seq<char>, m: nat|
        placed_screen(screens, heads, k) is Some && m > 0 ==> !#[trigger] reaches(
            screens,
            heads,
            k,
            k,
            m,
        ) {
        let n = screens.len();
        let k = choose|k: Seq<char>|
            placed_screen(screens, heads, k) is Some && !chain_ends(screens, heads, k, n);
        let w = lemma_long_walk(screens, heads, k, n);
        let q = w.map_values(|x: Seq<char>| placed_screen(screens, heads, x)->0);
        assert forall|j: int| 0 <= j < w.len() implies placed_screen(screens, heads, #[trigger] w[j])
            is Some by {
            assert(placed_parent(screens, heads, w[j]) is Some);
        }
        assert forall|j: int| 0 <= j < q.len() implies 0 <= #[trigger] q[j] < n && screens[q[j]].identifier@
            == w[j] by {
            assert(placed_screen(screens, heads, w[j]) is Some);
            lemma_screen_for_bound(screens, heads, w[j], n as int);
        }
        assert forall|a: int, b: int| 0 <= a < q.len() && 0 <= b < q.len() && a != b implies q[a]
            != q[b] by {
            assert(screens[q[a]].identifier@ == w[a]);
            assert(screens[q[b]].identifier@ == w[b]);
            if w[a] == w[b] {
                let (lo, hi) = if a < b {
                    (a, b)
                } else {
                    (b, a)
                };
                lemma_walk_reaches(screens, heads, w, lo, hi);
                assert(placed_screen(screens, heads, w[lo]) is Some);
                assert(reaches(screens, heads, w[lo], w[lo], (hi - lo) as nat));
            }
        }
        assert(q.no_duplicates());
        q.unique_seq_to_set();
        vstd::set_lib::lemma_int_range(0, n as int);
        assert(q.to_set().subset_of(vstd::set_lib::set_int_range(0, n as int))) by {
            assert forall|v: int| q.to_set().contains(v) implies vstd::set_lib::set_int_range(
                0,
                n as int,
            ).contains(v) by {
                let j = choose|j: int| 0 <= j < q.len() && q[j] == v;
                assert(0 <= q[j] < n);
            }
        }
        vstd::set_lib::lemma_len_subset(q.to_set(), vstd::set_lib::set_int_range(0, n as int));
    }
}

/// `map` holds, in the order of strings, each placed identifier with the
/// position of its placed screen.
pub open spec fn is_placement_map(
    map: Seq<(String, usize)>,
    screens: Seq<ScreenConfiguration>,
    heads: Seq<MonitorInformationView>,
) -> bool {
    &&& keys_strictly_sorted(entry_keys(map))
    &&& forall|k: Seq<char>|
        entry_keys(map).contains(k) <==> placed_screen(screens, heads, k) is Some
    &&& forall|k: Seq<char>|
        entry_keys(map).contains(k) ==> entries_map(map)[k] as int == placed_screen(
            screens,
            heads,
            k,
        )->0
}

/// Each placed identifier with the position of its placed screen, in the
/// order of strings.
fn build_placement_map(screens: &Vec<ScreenConfiguration>, heads: &Vec<MonitorInformation>) -> (map:
    Vec<(String, usize)>)
    ensures
        is_placement_map(map@, screens@, configuration_view(heads@)),
{
    let ghost hv = configuration_view(heads@);
    let mut map: Vec<(String, usize)> = Vec::new();
    for i in 0..screens.len()
        invariant
            hv == configuration_view(heads@),
            keys_strictly_sorted(entry_keys(map@)),
            forall|k: Seq<char>|
                entry_keys(map@).contains(k) <==> screen_for(screens@, hv, k, i as int) is Some,
            forall|k: Seq<char>|
                entry_keys(map@).contains(k) ==> entries_map(map@)[k] as int == screen_for(
                    screens@,
                    hv,
                    k,
                    i as int,
                )->0,
    {
        let screen = &screens[i];
        if find_attached(&screen.identifier, heads) {
            let ghost before = map@;
            sorted_insert(&mut map, screen.identifier.clone(), i);
            proof {
                assert forall|k: Seq<char>|
                    entry_keys(map@).contains(k) <==> screen_for(screens@, hv, k, i + 1) is Some by {
                    assert(entries_map(map@).dom().contains(k) == entry_keys(map@).contains(k));
                    assert(entries_map(before).dom().contains(k) == entry_keys(before).contains(k));
                }
                assert forall|k: Seq<char>| entry_keys(map@).contains(k) implies entries_map(map@)[k]
                    as int == screen_for(screens@, hv, k, i + 1)->0 by {
                    assert(entries_map(map@).dom().contains(k) == entry_keys(map@).contains(k));
                    assert(entries_map(before).dom().contains(k) == entry_keys(before).contains(k));
                }
            }
        }
    }
    map
}


pub proof fn lemma_screen_for_bound(
    screens: Seq<ScreenConfiguration>,
    heads: Seq<MonitorInformationView>,
    identifier: Seq<char>,
    n: int,
)
    ensures
        screen_for(screens, heads, identifier, n) matches Some(i) ==> 0 <= i < n && screens[i].identifier@
            == identifier,
    decreases n,
{
    if n > 0 {
        lemma_screen_for_bound(screens, heads, identifier, n - 1);
    }
}

/// When every screen of a profile is attached, every screen's identifier
/// is placed in the layout tree, by the last screen with that identifier.
pub proof fn lemma_connected_places_every_screen(
    screens: Seq<ScreenConfiguration>,
    heads: Seq<MonitorInformationView>,
    i: int,
)
    requires
        all_attached(screens, heads),
        0 <= i < screens.len(),
    ensures
        placed_screen(screens, heads, screens[i].identifier@) is Some,
        placed_screen(screens, heads, screens[i].identifier@)->0 >= i,
{
    lemma_screen_for_reaches(screens, heads, screens[i].identifier@, i, screens.len() as int);
}

proof fn lemma_screen_for_reaches(
    screens: Seq<ScreenConfiguration>,
    heads: Seq<MonitorInformationView>,
    identifier: Seq<char>,
    i: int,
    n: int,
)
    requires
        0 <= i < n <= screens.len(),
        screens[i].identifier@ == identifier,
        is_attached(identifier, heads),
    ensures
        screen_for(screens, heads, identifier, n) is Some,
        screen_for(screens, heads, identifier, n)->0 >= i,
    decreases n,
{
    if n - 1 != i && !(screens[n - 1].identifier@ == identifier) {
        lemma_screen_for_reaches(screens, heads, identifier, i, n - 1);
    }
}

/// Only attached screens are placed, under their own identifier.
pub proof fn lemma_placed_screens_are_attached(
    screens: Seq<ScreenConfiguration>,
    heads: Seq<MonitorInformationView>,
    identifier: Seq<char>,
)
    ensures
        placed_screen(screens, heads, identifier) matches Some(i) ==> 0 <= i < screens.len()
            && screens[i].identifier@ == identifier && is_attached(identifier, heads),
{
    lemma_screen_for_bound(screens, heads, identifier, screens.len() as int);
    lemma_screen_for_attached(screens, heads, identifier, screens.len() as int);
}

proof fn lemma_screen_for_attached(
    screens: Seq<ScreenConfiguration>,
    heads: Seq<MonitorInformationView>,
    identifier: Seq<char>,
    n: int,
)
    ensures
        screen_for(screens, heads, identifier, n) is Some ==> is_attached(identifier, heads),
    decreases n,
{
    if n > 0 {
        lemma_screen_for_attached(screens, heads, identifier, n - 1);
    }
}

/// A copy of `v`.
pub fn clone_strings(v: &Vec<String>) -> (r: Vec<String>)
    ensures
        strings_view(r@) == strings_view(v@),
{
    let mut r: Vec<String> = Vec::new();
    for i in 0..v.len()
        invariant
            strings_view(r@) == strings_view(v@).take(i as int),
    {
        let x = v[i].clone();
        let ghost before = r@;
        r.push(x);
        assert(strings_view(r@) =~= strings_view(before).push(x@));
        assert(strings_view(v@).take(i + 1) =~= strings_view(v@).take(i as int).push(v@[i as int]@));
    }
    assert(strings_view(v@).take(v@.len() as int) =~= strings_view(v@));
    r
}

/// Whether `v` holds `s`.
pub fn contains_string(v: &Vec<String>, s: &String) -> (r: bool)
    ensures
        r == strings_view(v@).contains(s@),
{
    for i in 0..v.len()
        invariant
            forall|j: int| 0 <= j < i ==> v@[j]@ != s@,
    {
        if v[i] == *s {
            assert(strings_view(v@)[i as int] == s@);
            return true;
        }
    }
    assert forall|j: int| 0 <= j < v@.len() implies strings_view(v@)[j] != s@ by {}
    false
}

/// A position whose node holds `identifier` makes the first such position in
/// `order` exist.
proof fn lemma_first_with_data_found(
    nodes: Seq<(Seq<char>, int)>,
    order: Seq<int>,
    identifier: Seq<char>,
    k: int,
)
    requires
        0 <= k < order.len(),
        nodes[order[k]].0 == identifier,
    ensures
        first_with_data(nodes, order, identifier) is Some,
        nodes[first_with_data(nodes, order, identifier)->0].0 == identifier,
        order.contains(first_with_data(nodes, order, identifier)->0),
    decreases order.len(),
{
    if nodes[order[0]].0 != identifier {
        lemma_first_with_data_found(nodes, order.drop_first(), identifier, k - 1);
        let r = first_with_data(nodes, order, identifier)->0;
        let j = choose|j: int| 0 <= j < order.drop_first().len() && order.drop_first()[j] == r;
        assert(order[j + 1] == r);
    } else {
        assert(order[0] == order[0]);
    }
}

/// Looks `identifier` up by level-order search from the root.
fn find_in_tree(tree: &Tree<String>, identifier: &String) -> (r: Option<NodeId>)
    requires
        is_rooted(tree_nodes(*tree)),
    ensures
        match r {
            Some(id) => first_with_data(tree_nodes(*tree), level_order(tree_nodes(*tree), 0), identifier@)
                == Some(node_id_target(id).1) && node_id_target(id).0 == tree_identity(*tree),
            None => first_with_data(tree_nodes(*tree), level_order(tree_nodes(*tree), 0), identifier@)
                is None,
        },
        (exists|j: int| 0 <= j < tree_nodes(*tree).len() && tree_nodes(*tree)[j].0 == identifier@)
            ==> r is Some,
        r is Some ==> 0 <= node_id_target(r->0).1 < tree_nodes(*tree).len() && tree_nodes(
            *tree,
        )[node_id_target(r->0).1].0 == identifier@,
{
    let root = root_id(tree);
    let mut ids = level_order_ids(tree, &root);
    let ghost nodes = tree_nodes(*tree);
    let ghost order = level_order(nodes, 0);
    let ghost targets = ids@.map_values(|id: NodeId| node_id_target(id).1);
    assert(visits_each_once(targets, nodes.len() as int));
    assert forall|k: int| 0 <= k < ids@.len() implies order[k] == #[trigger] targets[k] by {}
    assert(order =~= targets);
    proof {
        if exists|j: int| 0 <= j < nodes.len() && nodes[j].0 == identifier@ {
            let j = choose|j: int| 0 <= j < nodes.len() && nodes[j].0 == identifier@;
            assert(order.contains(j));
            let k = choose|k: int| 0 <= k < order.len() && order[k] == j;
            lemma_first_with_data_found(nodes, order, identifier@, k);
        }
    }
    assert(order.skip(0) =~= order);
    let mut k: usize = 0;
    while k < ids.len()
        invariant
            nodes == tree_nodes(*tree),
            order == level_order(nodes, 0),
            ids@.len() == order.len(),
            forall|m: int|
                0 <= m < ids@.len() ==> node_id_target(#[trigger] ids@[m]) == (
                    tree_identity(*tree),
                    order[m],
                ),
            forall|m: int| 0 <= m < order.len() ==> 0 <= #[trigger] order[m] < nodes.len(),
            k <= ids@.len(),
            first_with_data(nodes, order, identifier@) == first_with_data(
                nodes,
                order.skip(k as int),
                identifier@,
            ),
        decreases ids@.len() - k,
    {
        assert(0 <= order[k as int] < nodes.len());
        if *node_data(tree, &ids[k]) == *identifier {
            let id = ids.remove(k);
            return Some(id);
        }
        assert(order.skip(k as int).drop_first() =~= order.skip(k + 1));
        k = k + 1;
    }
    None
}

/// Places `identifier` into the tree, its placed parent first; see
/// [`place`].
fn add_node_to_tree(
    identifier: &String,
    position_tree: &mut Tree<String>,
    monitor_map: &Vec<(String, usize)>,
    screens: &Vec<ScreenConfiguration>,
    already_added: &mut Vec<String>,
    Ghost(heads): Ghost<Seq<MonitorInformationView>>,
    Ghost(fuel): Ghost<nat>,
) -> (r: Option<NodeId>)
    requires
        is_placement_map(monitor_map@, screens@, heads),
        tree_state_ok(
            tree_nodes(*old(position_tree)),
            strings_view(old(already_added)@),
            screens@,
            heads,
        ),
        chain_ends(screens@, heads, identifier@, fuel),
    ensures
        ({
            let p = place(
                screens@,
                heads,
                identifier@,
                tree_nodes(*old(position_tree)),
                strings_view(old(already_added)@),
                fuel,
            );
            &&& tree_nodes(*final(position_tree)) == p.0
            &&& strings_view(final(already_added)@) == p.1
            &&& match r {
                Some(id) => p.2 == Some(node_id_target(id).1),
                None => p.2 is None,
            }
        }),
        r is Some ==> node_id_target(r->0).0 == tree_identity(*old(position_tree)) && 0
            <= node_id_target(r->0).1 < tree_nodes(*final(position_tree)).len()
            && tree_nodes(*final(position_tree))[node_id_target(r->0).1].0 == identifier@,
        tree_identity(*final(position_tree)) == tree_identity(*old(position_tree)),
        tree_state_ok(
            tree_nodes(*final(position_tree)),
            strings_view(final(already_added)@),
            screens@,
            heads,
        ),
        placed_screen(screens@, heads, identifier@) is Some ==> r is Some && strings_view(
            final(already_added)@,
        ).contains(identifier@),
        strings_view(old(already_added)@).len() <= strings_view(final(already_added)@).len(),
        forall|i: int|
            0 <= i < strings_view(old(already_added)@).len() ==> strings_view(
                final(already_added)@,
            )[i] == #[trigger] strings_view(old(already_added)@)[i],
        forall|i: int|
            strings_view(old(already_added)@).len() <= i < strings_view(
                final(already_added)@,
            ).len() ==> reached_within(
                screens@,
                heads,
                identifier@,
                #[trigger] strings_view(final(already_added)@)[i],
                fuel,
            ),
    decreases fuel,
{
    let ghost nodes = tree_nodes(*position_tree);
    let ghost added = strings_view(already_added@);
    if !contains_string(already_added, identifier) {
        match find_key(monitor_map, identifier.as_str()) {
            None => {
                assert(placed_screen(screens@, heads, identifier@) is None);
                assert(strings_view(already_added@).len() == added.len());
                None
            },
            Some(entry) => {
                let screen_index = monitor_map[entry].1;
                proof {
                    lemma_key_position(monitor_map@, entry as int);
                    assert(entry_keys(monitor_map@).contains(identifier@));
                    lemma_screen_for_bound(screens@, heads, identifier@, screens@.len() as int);
                }
                assert(placed_screen(screens@, heads, identifier@) == Some(screen_index as int));
                let parent_map_entry = match screens[screen_index].position.parent() {
                    Some(parent) => {
                        let found = find_key(monitor_map, parent);
                        proof {
                            match found {
                                Some(pe) => {
                                    assert(entry_keys(monitor_map@)[pe as int] == parent@);
                                    assert(entry_keys(monitor_map@).contains(parent@));
                                    assert(placed_parent(screens@, heads, identifier@) == Some(
                                        monitor_map@[pe as int].0@,
                                    ));
                                },
                                None => {
                                    assert(placed_parent(screens@, heads, identifier@) is None);
                                },
                            }
                        }
                        found
                    },
                    None => {
                        assert(placed_parent(screens@, heads, identifier@) is None);
                        None
                    },
                };
                match parent_map_entry {
                    Some(pe) => {
                        let ghost p = monitor_map@[pe as int].0@;
                        assert(entry_keys(monitor_map@)[pe as int] == p);
                        assert(placed_parent(screens@, heads, identifier@) == Some(p));
                        assert(entry_keys(monitor_map@).contains(p));
                        let parent_node_id = add_node_to_tree(
                            &monitor_map[pe].0,
                            position_tree,
                            monitor_map,
                            screens,
                            already_added,
                            Ghost(heads),
                            Ghost((fuel - 1) as nat),
                        ).unwrap();
                        let ghost n1 = tree_nodes(*position_tree);
                        let ghost added_mid = strings_view(already_added@);
                        proof {
                            assert(!added_mid.contains(identifier@)) by {
                                if added_mid.contains(identifier@) {
                                    let i = choose|i: int|
                                        0 <= i < added_mid.len() && added_mid[i] == identifier@;
                                    if i < added.len() {
                                        assert(added[i] == identifier@);
                                        assert(added.contains(identifier@));
                                    } else {
                                        assert(reached_within(screens@, heads, p, added_mid[i], (fuel - 1) as nat));
                                        let n = choose|n: nat|
                                            n <= fuel - 1 && reaches(screens@, heads, p, added_mid[i], n);
                                        assert(reaches(screens@, heads, identifier@, identifier@, n + 1));
                                        lemma_no_cycle(screens@, heads, identifier@, n + 1, fuel);
                                    }
                                }
                            }
                        }
                        let node = insert_under(position_tree, identifier.clone(), &parent_node_id);
                        already_added.push(identifier.clone());
                        proof {
                            let a2 = strings_view(already_added@);
                            let n2 = tree_nodes(*position_tree);
                            assert(a2 =~= added_mid.push(identifier@));
                            assert(n2 =~= n1.push((identifier@, node_id_target(parent_node_id).1)));
                            assert(a2[a2.len() - 1] == identifier@);
                            assert forall|j: int| 1 <= j < n2.len() implies #[trigger] n2[j].0 == a2[j
                                - 1] by {
                                if j < n2.len() - 1 {
                                    assert(n1[j].0 == added_mid[j - 1]);
                                }
                            }
                            assert(parent_links_ok(n2, screens@, heads)) by {
                                assert forall|j: int| 1 <= j < n2.len() implies match placed_parent(
                                    screens@,
                                    heads,
                                    #[trigger] n2[j].0,
                                ) {
                                    Some(q) => n2[n2[j].1].0 == q,
                                    None => n2[j].1 == 0,
                                } by {
                                    if j < n2.len() - 1 {
                                        assert(n2[j] == n1[j]);
                                        assert(1 <= j < n1.len());
                                        assert(0 <= n1[j].1 < j);
                                        assert(n2[n1[j].1] == n1[n1[j].1]);
                                    }
                                }
                            }
                            assert forall|i: int|
                                added.len() <= i < a2.len() implies reached_within(
                                screens@,
                                heads,
                                identifier@,
                                #[trigger] a2[i],
                                fuel,
                            ) by {
                                if i < a2.len() - 1 {
                                    assert(a2[i] == added_mid[i]);
                                    assert(reached_within(screens@, heads, p, added_mid[i], (fuel - 1) as nat));
                                    let n = choose|n: nat|
                                        n <= fuel - 1 && reaches(screens@, heads, p, added_mid[i], n);
                                    assert(reaches(screens@, heads, identifier@, a2[i], n + 1));
                                } else {
                                    assert(reaches(screens@, heads, identifier@, a2[i], 0));
                                }
                            }
                            assert forall|i: int| 0 <= i < added.len() implies a2[i]
                                == #[trigger] added[i] by {
                                assert(added_mid[i] == added[i]);
                            }
                            assert(a2.contains(identifier@));
                        }
                        Some(node)
                    },
                    None => {
                        assert(placed_parent(screens@, heads, identifier@) is None);
                        let root = root_id(position_tree);
                        let node = insert_under(position_tree, identifier.clone(), &root);
                        already_added.push(identifier.clone());
                        proof {
                            let a2 = strings_view(already_added@);
                            let n2 = tree_nodes(*position_tree);
                            assert(a2 =~= added.push(identifier@));
                            assert(n2 =~= nodes.push((identifier@, 0int)));
                            assert(a2[a2.len() - 1] == identifier@);
                            assert forall|j: int| 1 <= j < n2.len() implies #[trigger] n2[j].0 == a2[j
                                - 1] by {
                                if j < n2.len() - 1 {
                                    assert(nodes[j].0 == added[j - 1]);
                                }
                            }
                            assert(parent_links_ok(n2, screens@, heads)) by {
                                assert forall|j: int| 1 <= j < n2.len() implies match placed_parent(
                                    screens@,
                                    heads,
                                    #[trigger] n2[j].0,
                                ) {
                                    Some(q) => n2[n2[j].1].0 == q,
                                    None => n2[j].1 == 0,
                                } by {
                                    if j < n2.len() - 1 {
                                        assert(n2[j] == nodes[j]);
                                        assert(0 <= nodes[j].1 < j);
                                        assert(n2[nodes[j].1] == nodes[nodes[j].1]);
                                    }
                                }
                            }
                            assert forall|i: int|
                                added.len() <= i < a2.len() implies reached_within(
                                screens@,
                                heads,
                                identifier@,
                                #[trigger] a2[i],
                                fuel,
                            ) by {
                                assert(reaches(screens@, heads, identifier@, a2[i], 0));
                            }
                            assert(a2.contains(identifier@));
                        }
                        Some(node)
                    },
                }
            },
        }
    } else {
        proof {
            let i = choose|i: int| 0 <= i < added.len() && added[i] == identifier@;
            assert(nodes[i + 1].0 == added[i]);
        }
        let found = find_in_tree(position_tree, identifier);
        assert(strings_view(already_added@).len() == added.len());
        found
    }
}

/// The laws of the layout tree with these nodes: the root `Root` comes
/// first and every other node hangs from an earlier one; the nodes below the
/// root are exactly the placed identifiers, each once; and each hangs under
/// the node of its placed parent, or under the root when it has none.
pub open spec fn layout_laws(
    nodes: Seq<(Seq<char>, int)>,
    screens: Seq<ScreenConfiguration>,
    heads: Seq<MonitorInformationView>,
) -> bool {
    &&& is_rooted(nodes)
    &&& nodes[0] == (root_label(), -1int)
    &&& forall|k: Seq<char>|
        placed_screen(screens, heads, k) is Some <==> exists|j: int|
            1 <= j < nodes.len() && #[trigger] nodes[j].0 == k
    &&& forall|a: int, b: int| 1 <= a < nodes.len() && 1 <= b < nodes.len() && a != b ==> nodes[a].0 != nodes[b].0
    &&& parent_links_ok(nodes, screens, heads)
}

impl ScreensProfile {
    /// Builds the layout tree of the profile for the attached monitors
    /// `head_config` and returns its drawing. Every placed screen (see
    /// [`placed_screen`]) becomes a node, once, under the node of the screen
    /// that its position is relative to when that one is placed too,
    /// otherwise under the root.
    pub fn apply(&self, head_config: &Vec<MonitorInformation>, _hyprland_config_file: &str) -> (display:
        String)
        requires
            positions_acyclic(self.screens@, configuration_view(head_config@)),
        ensures
            display@ == tree_rendering(layout_tree(self.screens@, configuration_view(head_config@))),
            layout_laws(
                layout_tree(self.screens@, configuration_view(head_config@)),
                self.screens@,
                configuration_view(head_config@),
            ),
    {
        let ghost heads = configuration_view(head_config@);
        let monitor_map = build_placement_map(&self.screens, head_config);
        let root_data = String::from_str("Root");
        proof {
            reveal_strlit("Root");
            assert(root_data@ =~= root_label());
        }
        let mut position_tree = tree_with_root(root_data);
        let mut already_added: Vec<String> = Vec::new();
        let ghost keys = entry_keys(monitor_map@);
        let ghost fuel = self.screens@.len();
        proof {
            assert forall|k: Seq<char>| keys.contains(k) <==> placed_screen(self.screens@, heads, k) is Some by {}
            let chosen = placed_identifiers(self.screens@, heads);
            assert(keys_strictly_sorted(chosen) && forall|k: Seq<char>|
                chosen.contains(k) <==> placed_screen(self.screens@, heads, k) is Some);
            lemma_sorted_keys_unique(keys, chosen);
            assert(strings_view(already_added@) =~= Seq::<Seq<char>>::empty());
            assert(keys.skip(0) =~= keys);
            let n0 = tree_nodes(position_tree);
            assert(parent_links_ok(n0, self.screens@, heads));
        }
        for i in 0..monitor_map.len()
            invariant
                is_placement_map(monitor_map@, self.screens@, heads),
                heads == configuration_view(head_config@),
                keys == entry_keys(monitor_map@),
                keys == placed_identifiers(self.screens@, heads),
                fuel == self.screens@.len(),
                positions_acyclic(self.screens@, heads),
                tree_state_ok(tree_nodes(position_tree), strings_view(already_added@), self.screens@, heads),
                forall|t: int| 0 <= t < i ==> strings_view(already_added@).contains(#[trigger] keys[t]),
                place_all(self.screens@, heads, keys, seq![(root_label(), -1int)], Seq::empty(), fuel)
                    == place_all(
                    self.screens@,
                    heads,
                    keys.skip(i as int),
                    tree_nodes(position_tree),
                    strings_view(already_added@),
                    fuel,
                ),
        {
            assert(keys[i as int] == monitor_map@[i as int].0@);
            assert(keys.contains(keys[i as int]));
            let ghost before = strings_view(already_added@);
            let _ = add_node_to_tree(
                &monitor_map[i].0,
                &mut position_tree,
                &monitor_map,
                &self.screens,
                &mut already_added,
                Ghost(heads),
                Ghost(fuel),
            );
            proof {
                let after = strings_view(already_added@);
                assert forall|t: int| 0 <= t < i + 1 implies after.contains(#[trigger] keys[t]) by {
                    if t < i {
                        let q = choose|q: int| 0 <= q < before.len() && before[q] == keys[t];
                        assert(after[q] == before[q]);
                    }
                }
            }
            assert(keys.skip(i as int).drop_first() =~= keys.skip(i + 1));
        }
        proof {
            let n = tree_nodes(position_tree);
            let a = strings_view(already_added@);
            assert(keys.skip(keys.len() as int) =~= Seq::<Seq<char>>::empty());
            assert forall|k: Seq<char>|
                placed_screen(self.screens@, heads, k) is Some <==> exists|j: int|
                    1 <= j < n.len() && #[trigger] n[j].0 == k by {
                if placed_screen(self.screens@, heads, k) is Some {
                    assert(keys.contains(k));
                    let t = choose|t: int| 0 <= t < keys.len() && keys[t] == k;
                    assert(a.contains(keys[t]));
                    let q = choose|q: int| 0 <= q < a.len() && a[q] == k;
                    assert(n[q + 1].0 == k);
                }
                if exists|j: int| 1 <= j < n.len() && #[trigger] n[j].0 == k {
                    let j = choose|j: int| 1 <= j < n.len() && #[trigger] n[j].0 == k;
                    assert(a[j - 1] == k);
                }
            }
            assert forall|x: int, y: int|
                1 <= x < n.len() && 1 <= y < n.len() && x != y implies n[x].0 != n[y].0 by {
                assert(n[x].0 == a[x - 1]);
                assert(n[y].0 == a[y - 1]);
            }
        }
        render_tree(&position_tree)
    }
}


/// Whether the chain of placed parents from `identifier` ends within `fuel`
/// steps.
fn chain_ends_within(
    identifier: &String,
    monitor_map: &Vec<(String, usize)>,
    screens: &Vec<ScreenConfiguration>,
    fuel: usize,
    Ghost(heads): Ghost<Seq<MonitorInformationView>>,
) -> (r: bool)
    requires
        is_placement_map(monitor_map@, screens@, heads),
    ensures
        r == chain_ends(screens@, heads, identifier@, fuel as nat),
    decreases fuel,
{
    match find_key(monitor_map, identifier.as_str()) {
        None => {
            assert(placed_screen(screens@, heads, identifier@) is None);
            true
        },
        Some(entry) => {
            let screen_index = monitor_map[entry].1;
            proof {
                lemma_key_position(monitor_map@, entry as int);
                assert(entry_keys(monitor_map@).contains(identifier@));
                lemma_screen_for_bound(screens@, heads, identifier@, screens@.len() as int);
            }
            match screens[screen_index].position.parent() {
                Some(parent) => match find_key(monitor_map, parent) {
                    Some(pe) => {
                        assert(entry_keys(monitor_map@)[pe as int] == parent@);
                        assert(entry_keys(monitor_map@).contains(parent@));
                        if fuel == 0 {
                            false
                        } else {
                            chain_ends_within(&monitor_map[pe].0, monitor_map, screens, fuel - 1, Ghost(heads))
                        }
                    },
                    None => true,
                },
                None => true,
            }
        },
    }
}

impl ScreensProfile {
    /// Whether no placed screen is, through the screens its position is
    /// relative to, relative to itself; [`ScreensProfile::apply`] needs it.
    pub fn positions_are_acyclic(&self, head_config: &Vec<MonitorInformation>) -> (r: bool)
        ensures
            r == positions_acyclic(self.screens@, configuration_view(head_config@)),
    {
        let ghost heads = configuration_view(head_config@);
        let monitor_map = build_placement_map(&self.screens, head_config);
        for i in 0..monitor_map.len()
            invariant
                heads == configuration_view(head_config@),
                is_placement_map(monitor_map@, self.screens@, heads),
                forall|t: int|
                    0 <= t < i ==> chain_ends(
                        self.screens@,
                        heads,
                        #[trigger] entry_keys(monitor_map@)[t],
                        self.screens@.len(),
                    ),
        {
            if !chain_ends_within(
                &monitor_map[i].0,
                &monitor_map,
                &self.screens,
                self.screens.len(),
                Ghost(heads),
            ) {
                assert(entry_keys(monitor_map@)[i as int] == monitor_map@[i as int].0@);
                assert(entry_keys(monitor_map@).contains(monitor_map@[i as int].0@));
                return false;
            }
            assert(entry_keys(monitor_map@)[i as int] == monitor_map@[i as int].0@);
        }
        assert forall|k: Seq<char>| placed_screen(self.screens@, heads, k) is Some implies chain_ends(
            self.screens@,
            heads,
            k,
            self.screens@.len(),
        ) by {
            assert(entry_keys(monitor_map@).contains(k));
        }
        true
    }
}

/// The application settings: where the compositor configuration goes, and
/// the profiles by name.
#[derive(Debug)]
pub struct AppConfiguration {
    pub(crate) hyprland_config_file: String,
    /// The profiles, in the order of their names, each name once.
    pub(crate) profiles: Vec<(String, ScreensProfile)>,
}

/// What the settings hold: the configuration file and the profiles with
/// their names, in order.
pub struct AppConfigurationView {
    pub hyprland_config_file: Seq<char>,
    pub profiles: Seq<(String, ScreensProfile)>,
}

impl View for AppConfiguration {
    type V = AppConfigurationView;

    closed spec fn view(&self) -> AppConfigurationView {
        AppConfigurationView {
            hyprland_config_file: self.hyprland_config_file@,
            profiles: self.profiles@,
        }
    }
}

/// The profiles are in the order of their names, each name once.
pub open spec fn app_configuration_wf(c: AppConfigurationView) -> bool {
    keys_strictly_sorted(entry_keys(c.profiles))
}

/// The configuration file that is used when none is given.
pub open spec fn default_hyprland_config_file() -> Seq<char> {
    seq!['~', '/', '.', 'c', 'o', 'n', 'f', 'i', 'g', '/', 'h', 'y', 'p', 'r', '/', 'd', 'i', 's', 'p', 'l', 'a', 'y', '.', 'c', 'o', 'n', 'f']
}

impl Default for AppConfiguration {
    /// Settings with the default configuration file and no profiles.
    fn default() -> (c: Self)
        ensures
            c@.hyprland_config_file == default_hyprland_config_file(),
            c@.profiles.len() == 0,
    {
        let file = String::from_str("~/.config/hypr/display.conf");
        proof {
            reveal_strlit("~/.config/hypr/display.conf");
            assert(file@ =~= default_hyprland_config_file());
        }
        AppConfiguration::new(file)
    }
}

impl AppConfiguration {
    /// Every value keeps its profiles in the order of their names.
    #[verifier::type_invariant]
    closed spec fn profiles_in_order(self) -> bool {
        app_configuration_wf(self@)
    }

    /// Settings with the given configuration file and no profiles.
    pub fn new(hyprland_config_file: String) -> (c: Self)
        ensures
            c@.hyprland_config_file == hyprland_config_file@,
            c@.profiles.len() == 0,
    {
        let profiles: Vec<(String, ScreensProfile)> = Vec::new();
        assert(entry_keys(profiles@) =~= Seq::<Seq<char>>::empty());
        AppConfiguration { hyprland_config_file, profiles }
    }

    /// Adds the profile `name`, in place of a profile of the same name.
    pub fn insert_profile(&mut self, name: String, profile: ScreensProfile)
        ensures
            final(self)@.hyprland_config_file == old(self)@.hyprland_config_file,
            entries_map(final(self)@.profiles) == entries_map(old(self)@.profiles).insert(
                name@,
                profile,
            ),
    {
        proof {
            use_type_invariant(&*self);
        }
        let mut profiles: Vec<(String, ScreensProfile)> = Vec::new();
        assert(entry_keys(profiles@) =~= Seq::<Seq<char>>::empty());
        std::mem::swap(&mut profiles, &mut self.profiles);
        sorted_insert(&mut profiles, name, profile);
        self.profiles = profiles;
    }

    /// The position of the profile `name`, if there is one; there is at
    /// most one.
    pub fn profile_index(&self, name: &str) -> (r: Option<usize>)
        ensures
            match r {
                Some(i) => i < self@.profiles.len() && self@.profiles[i as int].0@ == name@ && forall|
                    j: int,
                | 0 <= j < self@.profiles.len() && j != i ==> self@.profiles[j].0@ != name@,
                None => !entry_keys(self@.profiles).contains(name@),
            },
    {
        proof {
            use_type_invariant(self);
        }
        let r = find_key(&self.profiles, name);
        proof {
            if r is Some {
                let i = r->0 as int;
                assert forall|j: int|
                    0 <= j < self@.profiles.len() && j != i implies self@.profiles[j].0@
                    != name@ by {
                    assert(entry_keys(self.profiles@)[i] == self.profiles@[i].0@);
                    assert(entry_keys(self.profiles@)[j] == self.profiles@[j].0@);
                    if self.profiles@[j].0@ == name@ {
                        lemma_str_lt_order(name@, name@, name@);
                    }
                }
            }
        }
        r
    }

    /// The first profile, in the order of names, whose screens are all
    /// attached: the one with the least name among those.
    pub fn first_connected_profile(&self, head_config: &Vec<MonitorInformation>) -> (r: Option<usize>)
        ensures
            match r {
                Some(i) => {
                    &&& i < self@.profiles.len()
                    &&& all_attached(self@.profiles[i as int].1.screens@, configuration_view(head_config@))
                    &&& forall|j: int|
                        0 <= j < i ==> !all_attached(
                            #[trigger] self@.profiles[j].1.screens@,
                            configuration_view(head_config@),
                        )
                    &&& forall|j: int|
                        0 <= j < self@.profiles.len() && j != i && all_attached(
                            #[trigger] self@.profiles[j].1.screens@,
                            configuration_view(head_config@),
                        ) ==> str_lt(self@.profiles[i as int].0@, self@.profiles[j].0@)
                },
                None => forall|j: int|
                    0 <= j < self@.profiles.len() ==> !all_attached(
                        #[trigger] self@.profiles[j].1.screens@,
                        configuration_view(head_config@),
                    ),
            },
    {
        proof {
            use_type_invariant(self);
            assert forall|a: int, b: int|
                #![trigger self.profiles@[a], self.profiles@[b]]
                0 <= a < b < self.profiles@.len() implies str_lt(
                self.profiles@[a].0@,
                self.profiles@[b].0@,
            ) by {
                assert(entry_keys(self.profiles@)[a] == self.profiles@[a].0@);
                assert(entry_keys(self.profiles@)[b] == self.profiles@[b].0@);
            }
        }
        for i in 0..self.profiles.len()
            invariant
                forall|j: int|
                    0 <= j < i ==> !all_attached(
                        #[trigger] self.profiles@[j].1.screens@,
                        configuration_view(head_config@),
                    ),
                forall|a: int, b: int|
                    #![trigger self.profiles@[a], self.profiles@[b]]
                    0 <= a < b < self.profiles@.len() ==> str_lt(
                        self.profiles@[a].0@,
                        self.profiles@[b].0@,
                    ),
        {
            if self.profiles[i].1.is_connected(head_config) {
                proof {
                    assert forall|j: int|
                        0 <= j < self.profiles@.len() && j != i && all_attached(
                            #[trigger] self.profiles@[j].1.screens@,
                            configuration_view(head_config@),
                        ) implies str_lt(self.profiles@[i as int].0@, self.profiles@[j].0@) by {
                        assert(i < j);
                    }
                }
                return Some(i);
            }
        }
        None
    }

    /// The file the compositor configuration goes to.
    pub fn hyprland_config_file(&self) -> (r: &String)
        ensures
            r@ == self@.hyprland_config_file,
    {
        &self.hyprland_config_file
    }

    /// The profiles with their names, in the order of the names, each name
    /// once.
    pub fn profiles(&self) -> (r: &Vec<(String, ScreensProfile)>)
        ensures
            r@ == self@.profiles,
            keys_strictly_sorted(entry_keys(r@)),
    {
        proof {
            use_type_invariant(self);
        }
        &self.profiles
    }
}

} // verus!
