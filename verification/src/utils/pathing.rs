use vstd::prelude::*;
use crate::battle_objects::buildables::Wall;
use crate::battle_objects::coordinates::GridCoord;
use crate::utils::distance::{lemma_floor_root_exists, lemma_floor_root_of_zero, lemma_scaled_root_of_positive};

verus! {

/// How many cells one search may expand before it gives up.
pub const EXPANSION_CAP: usize = 250;

/// How many steps off a goal may lie and still be found whatever stands
/// about: the cells within so many steps of a cell are fewer than the cap.
pub const SURE_REACH: usize = 10;

/// Whether an actor may step from `a` to `b`: the cells share an edge, `b`
/// is not among the blocked cells, and no wall shuts the edge between them.
pub open spec fn open_step(a: GridCoord, b: GridCoord, walls: Seq<Wall>, blocked: Seq<GridCoord>) -> bool {
    &&& a.touches(b)
    &&& !blocked.contains(b)
    &&& forall|i: int| 0 <= i < walls.len() ==> !(#[trigger] walls[i]).blocks(a, b)
}

/// The cell a route stands on before its step number `i`.
pub open spec fn route_origin(from: GridCoord, path: Seq<GridCoord>, i: int) -> GridCoord {
    if i == 0 {
        from
    } else {
        path[i - 1]
    }
}

/// Whether `path` leads from `from` to `to` by open steps. The path leaves
/// `from` out and ends with `to`; the empty path leads from a cell to itself.
pub open spec fn is_route(
    from: GridCoord,
    to: GridCoord,
    path: Seq<GridCoord>,
    walls: Seq<Wall>,
    blocked: Seq<GridCoord>,
) -> bool {
    &&& if path.len() == 0 {
        from == to
    } else {
        path.last() == to
    }
    &&& forall|i: int|
        0 <= i < path.len() ==> open_step(route_origin(from, path, i), #[trigger] path[i], walls, blocked)
}

/// Whether some route leads from `from` to `to`.
pub open spec fn reachable(from: GridCoord, to: GridCoord, walls: Seq<Wall>, blocked: Seq<GridCoord>) -> bool {
    exists|path: Seq<GridCoord>| is_route(from, to, path, walls, blocked)
}

/// Whether no route from `from` to `to` is shorter than `path`.
pub open spec fn is_shortest(
    from: GridCoord,
    to: GridCoord,
    path: Seq<GridCoord>,
    walls: Seq<Wall>,
    blocked: Seq<GridCoord>,
) -> bool {
    forall|other: Seq<GridCoord>| #[trigger]
        is_route(from, to, other, walls, blocked) ==> path.len() <= other.len()
}

/// The number of steps between two cells when nothing is in the way.
pub open spec fn steps_apart(a: GridCoord, b: GridCoord) -> int {
    (if a.x < b.x {
        b.x - a.x
    } else {
        a.x - b.x
    }) + (if a.y < b.y {
        b.y - a.y
    } else {
        a.y - b.y
    })
}

/// Whether `c` lies in the smallest block of cells that holds both `a` and
/// `b`.
pub open spec fn in_block(a: GridCoord, b: GridCoord, c: GridCoord) -> bool {
    &&& (a.x <= c.x <= b.x || b.x <= c.x <= a.x)
    &&& (a.y <= c.y <= b.y || b.y <= c.y <= a.y)
}

/// The cell one step from `a` toward `b`: along the row first, then along
/// the column.
pub open spec fn step_nearer(a: GridCoord, b: GridCoord) -> GridCoord {
    if a.x < b.x {
        GridCoord { x: (a.x + 1) as i32, y: a.y }
    } else if a.x > b.x {
        GridCoord { x: (a.x - 1) as i32, y: a.y }
    } else if a.y < b.y {
        GridCoord { x: a.x, y: (a.y + 1) as i32 }
    } else {
        GridCoord { x: a.x, y: (a.y - 1) as i32 }
    }
}

/// The way from `a` to `b` that goes along the row first and then along the
/// column.
pub open spec fn straight_way(a: GridCoord, b: GridCoord) -> Seq<GridCoord>
    decreases steps_apart(a, b),
{
    if a == b {
        Seq::empty()
    } else {
        seq![step_nearer(a, b)] + straight_way(step_nearer(a, b), b)
    }
}

/// Whether every route from `from` to `to`, if there is any, has more than
/// `SURE_REACH` cells.
pub open spec fn out_of_reach(from: GridCoord, to: GridCoord, walls: Seq<Wall>, blocked: Seq<GridCoord>) -> bool {
    forall|other: Seq<GridCoord>| #[trigger]
        is_route(from, to, other, walls, blocked) ==> other.len() > SURE_REACH
}

/// Whether `region` is a finite set of cells that holds `from` and that no
/// open step leaves.
pub open spec fn is_enclosure(
    region: Set<GridCoord>,
    from: GridCoord,
    walls: Seq<Wall>,
    blocked: Seq<GridCoord>,
) -> bool {
    &&& region.finite()
    &&& region.contains(from)
    &&& forall|a: GridCoord, b: GridCoord|
        region.contains(a) && #[trigger] open_step(a, b, walls, blocked) ==> region.contains(b)
}

/// Whether every enclosure around `from` holds more cells than one search
/// may expand.
pub open spec fn beyond_cap(from: GridCoord, walls: Seq<Wall>, blocked: Seq<GridCoord>) -> bool {
    forall|region: Set<GridCoord>| #[trigger]
        is_enclosure(region, from, walls, blocked) ==> region.len() > EXPANSION_CAP
}

/// What a search from `from` to `to` may answer. A search between a cell
/// and itself answers the empty route, and one between two cells with an
/// open step between them answers that one step. A route that it answers is
/// a route, and as short as any. It answers none only where there is none,
/// or where every enclosure around `from` holds more cells than it may
/// expand and the goal lies more than `SURE_REACH` steps off.
pub open spec fn search_outcome(
    from: GridCoord,
    to: GridCoord,
    walls: Seq<Wall>,
    blocked: Seq<GridCoord>,
    route: Option<Seq<GridCoord>>,
) -> bool {
    &&& from == to ==> route == Some(Seq::<GridCoord>::empty())
    &&& route matches Some(path) ==> is_route(from, to, path, walls, blocked) && is_shortest(
        from,
        to,
        path,
        walls,
        blocked,
    )
    &&& open_step(from, to, walls, blocked) ==> route == Some(seq![to])
    &&& route is None ==> !reachable(from, to, walls, blocked) || (beyond_cap(from, walls, blocked)
        && out_of_reach(from, to, walls, blocked))
}

/// A route as the sequence of its cells.
pub open spec fn route_view(route: Option<Vec<GridCoord>>) -> Option<Seq<GridCoord>> {
    match route {
        Some(path) => Some(path@),
        None => None,
    }
}

/// A cell that the search has found: the steps counted to it, its place in
/// the order of expansion, the node it was found from, and whether it has
/// been expanded.
#[derive(Clone, Copy)]
struct PathingNode {
    position: GridCoord,
    cost: u32,
    priority: u128,
    parent: usize,
    closed: bool,
}

/// The steps taken so far plus the straight-line distance left, in 256ths of
/// a cell.
spec fn priority_of(cost: int, cell: GridCoord, to: GridCoord) -> int {
    256 * cost + cell.spec_distance_to(to)
}

/// Whether node `j` stands for the cell `c`.
spec fn found_at(nodes: Seq<PathingNode>, c: GridCoord, j: int) -> bool {
    0 <= j < nodes.len() && nodes[j].position == c
}

/// Whether some node stands for the cell `c`.
spec fn discovered(nodes: Seq<PathingNode>, c: GridCoord) -> bool {
    exists|j: int| found_at(nodes, c, j)
}

/// Whether a closed node stands for the cell `c`.
spec fn closed_at(nodes: Seq<PathingNode>, c: GridCoord) -> bool {
    exists|j: int| #[trigger] found_at(nodes, c, j) && nodes[j].closed
}

/// Whether a node stands for the cell `c` with no more than `limit` steps
/// counted.
spec fn near_hit(nodes: Seq<PathingNode>, c: GridCoord, limit: int) -> bool {
    exists|j: int| #[trigger] found_at(nodes, c, j) && nodes[j].cost <= limit
}

/// No route to the cell of node `i` is shorter than the steps counted for
/// it.
spec fn settled(nodes: Seq<PathingNode>, i: int, from: GridCoord, walls: Seq<Wall>, blocked: Seq<GridCoord>) -> bool {
    forall|r: Seq<GridCoord>| #[trigger]
        is_route(from, nodes[i].position, r, walls, blocked) ==> nodes[i].cost <= r.len()
}

/// Whether node `i` hangs on its parent as it should: the parent is closed,
/// one step nearer the start, and an open step away.
spec fn link_ok(nodes: Seq<PathingNode>, i: int, walls: Seq<Wall>, blocked: Seq<GridCoord>) -> bool {
    let p = nodes[i].parent as int;
    &&& 0 <= p < nodes.len()
    &&& nodes[p].closed
    &&& nodes[i].cost == nodes[p].cost + 1
    &&& open_step(nodes[p].position, nodes[i].position, walls, blocked)
}

/// Whether the nodes `i` and `j` stand for different cells.
spec fn differ(nodes: Seq<PathingNode>, i: int, j: int) -> bool {
    nodes[i].position != nodes[j].position
}

/// Whether the nodes make up a sound search: the first stands for the
/// start, every other one hangs on a closed parent, no cell has two nodes,
/// the priorities are what the steps and the distances give, the goal is not
/// closed, and no node has more than `bound` steps counted, the closed ones
/// fewer.
spec fn tree_ok(
    nodes: Seq<PathingNode>,
    from: GridCoord,
    to: GridCoord,
    walls: Seq<Wall>,
    blocked: Seq<GridCoord>,
    bound: int,
) -> bool {
    &&& nodes.len() >= 1
    &&& nodes[0].position == from
    &&& nodes[0].cost == 0
    &&& nodes[0].parent == 0
    &&& forall|i: int| 0 < i < nodes.len() ==> #[trigger] link_ok(nodes, i, walls, blocked)
    &&& forall|i: int, j: int| 0 <= i < j < nodes.len() ==> #[trigger] differ(nodes, i, j)
    &&& forall|i: int|
        0 <= i < nodes.len() ==> (#[trigger] nodes[i]).priority == priority_of(
            nodes[i].cost as int,
            nodes[i].position,
            to,
        )
    &&& forall|i: int| 0 <= i < nodes.len() && (#[trigger] nodes[i]).closed ==> nodes[i].position != to
    &&& forall|i: int| 0 <= i < nodes.len() ==> (#[trigger] nodes[i]).cost <= bound
    &&& forall|i: int| 0 <= i < nodes.len() && (#[trigger] nodes[i]).closed ==> nodes[i].cost < bound
}

/// Whether every cell an open step from node `i` has a node, with no more
/// than one step more counted.
spec fn closure_ok(nodes: Seq<PathingNode>, i: int, walls: Seq<Wall>, blocked: Seq<GridCoord>) -> bool {
    forall|c: GridCoord| #[trigger]
        open_step(nodes[i].position, c, walls, blocked) ==> near_hit(nodes, c, nodes[i].cost + 1)
}

/// Whether `new_nodes` is `old_nodes` with nodes added and with steps cut
/// for nodes that are not closed.
spec fn extends(old_nodes: Seq<PathingNode>, new_nodes: Seq<PathingNode>) -> bool {
    &&& old_nodes.len() <= new_nodes.len()
    &&& forall|j: int|
        0 <= j < old_nodes.len() ==> {
            &&& (#[trigger] new_nodes[j]).position == old_nodes[j].position
            &&& new_nodes[j].closed == old_nodes[j].closed
            &&& (new_nodes[j] == old_nodes[j] || (new_nodes[j].cost < old_nodes[j].cost
                && !old_nodes[j].closed))
        }
}

/// The cells from the start to node `i`, the start left out, for a node
/// with `steps` steps counted.
spec fn trail(nodes: Seq<PathingNode>, i: int, steps: nat) -> Seq<GridCoord>
    decreases steps,
{
    if steps == 0 || !(0 <= i < nodes.len()) {
        Seq::empty()
    } else {
        trail(nodes, nodes[i].parent as int, (steps - 1) as nat).push(nodes[i].position)
    }
}

/// Two nodes for one cell are one node.
proof fn lemma_same_cell(
    nodes: Seq<PathingNode>,
    c: GridCoord,
    a: int,
    b: int,
    from: GridCoord,
    to: GridCoord,
    walls: Seq<Wall>,
    blocked: Seq<GridCoord>,
    bound: int,
)
    requires
        tree_ok(nodes, from, to, walls, blocked, bound),
        found_at(nodes, c, a),
        found_at(nodes, c, b),
    ensures
        a == b,
{
    if a < b {
        assert(differ(nodes, a, b));
    } else if b < a {
        assert(differ(nodes, b, a));
    }
}

/// A sound search stays sound when a node for a cell not yet found is
/// added.
proof fn lemma_push_node(
    nodes: Seq<PathingNode>,
    node: PathingNode,
    from: GridCoord,
    to: GridCoord,
    walls: Seq<Wall>,
    blocked: Seq<GridCoord>,
    bound: int,
)
    requires
        tree_ok(nodes, from, to, walls, blocked, bound),
        0 <= node.parent < nodes.len(),
        nodes[node.parent as int].closed,
        node.cost == nodes[node.parent as int].cost + 1,
        open_step(nodes[node.parent as int].position, node.position, walls, blocked),
        !discovered(nodes, node.position),
        node.priority == priority_of(node.cost as int, node.position, to),
        !node.closed,
        node.cost <= bound,
    ensures
        tree_ok(nodes.push(node), from, to, walls, blocked, bound),
        extends(nodes, nodes.push(node)),
{
    let grown = nodes.push(node);
    assert forall|i: int| 0 < i < grown.len() implies #[trigger] link_ok(grown, i, walls, blocked) by {
        if i < nodes.len() {
            assert(link_ok(nodes, i, walls, blocked));
        }
    }
    assert forall|i: int, j: int| 0 <= i < j < grown.len() implies #[trigger] differ(grown, i, j) by {
        if j < nodes.len() {
            assert(differ(nodes, i, j));
        } else {
            assert(!found_at(nodes, node.position, i));
        }
    }
}

/// A sound search stays sound when a shorter way to an open node is put in
/// place of the one known.
proof fn lemma_improve_node(
    nodes: Seq<PathingNode>,
    j: int,
    node: PathingNode,
    from: GridCoord,
    to: GridCoord,
    walls: Seq<Wall>,
    blocked: Seq<GridCoord>,
    bound: int,
)
    requires
        tree_ok(nodes, from, to, walls, blocked, bound),
        0 < j < nodes.len(),
        !nodes[j].closed,
        node.position == nodes[j].position,
        node.cost < nodes[j].cost,
        0 <= node.parent < nodes.len(),
        nodes[node.parent as int].closed,
        node.cost == nodes[node.parent as int].cost + 1,
        open_step(nodes[node.parent as int].position, node.position, walls, blocked),
        node.priority == priority_of(node.cost as int, node.position, to),
        !node.closed,
    ensures
        tree_ok(nodes.update(j, node), from, to, walls, blocked, bound),
        extends(nodes, nodes.update(j, node)),
{
    let changed = nodes.update(j, node);
    assert forall|i: int| 0 < i < changed.len() implies #[trigger] link_ok(changed, i, walls, blocked) by {
        if i != j {
            assert(link_ok(nodes, i, walls, blocked));
        }
    }
    assert forall|a: int, b: int| 0 <= a < b < changed.len() implies #[trigger] differ(changed, a, b) by {
        assert(differ(nodes, a, b));
    }
}

/// A sound search stays sound when a node is closed and the count of
/// expansions goes up by one.
proof fn lemma_close_node(
    nodes: Seq<PathingNode>,
    ci: int,
    node: PathingNode,
    from: GridCoord,
    to: GridCoord,
    walls: Seq<Wall>,
    blocked: Seq<GridCoord>,
    bound: int,
)
    requires
        tree_ok(nodes, from, to, walls, blocked, bound - 1),
        0 <= ci < nodes.len(),
        nodes[ci].position != to,
        node.position == nodes[ci].position,
        node.cost == nodes[ci].cost,
        node.priority == nodes[ci].priority,
        node.parent == nodes[ci].parent,
        node.closed,
    ensures
        tree_ok(nodes.update(ci, node), from, to, walls, blocked, bound),
{
    let changed = nodes.update(ci, node);
    assert forall|i: int| 0 < i < changed.len() implies #[trigger] link_ok(changed, i, walls, blocked) by {
        assert(link_ok(nodes, i, walls, blocked));
    }
    assert forall|a: int, b: int| 0 <= a < b < changed.len() implies #[trigger] differ(changed, a, b) by {
        assert(differ(nodes, a, b));
    }
}

/// Only the start stands no step from the start.
proof fn lemma_cost_zero(
    nodes: Seq<PathingNode>,
    i: int,
    from: GridCoord,
    to: GridCoord,
    walls: Seq<Wall>,
    blocked: Seq<GridCoord>,
    bound: int,
)
    requires
        tree_ok(nodes, from, to, walls, blocked, bound),
        0 <= i < nodes.len(),
    ensures
        nodes[i].cost == 0 <==> i == 0,
        i != 0 && nodes[i].cost == 1 ==> nodes[i].parent == 0,
{
    if i != 0 {
        assert(link_ok(nodes, i, walls, blocked));
        let p = nodes[i].parent as int;
        if p != 0 {
            assert(link_ok(nodes, p, walls, blocked));
        }
    }
}

/// A cell found within some steps stays so as the search goes on.
proof fn lemma_extends_near_hit(
    old_nodes: Seq<PathingNode>,
    new_nodes: Seq<PathingNode>,
    c: GridCoord,
    limit: int,
)
    requires
        extends(old_nodes, new_nodes),
        near_hit(old_nodes, c, limit),
    ensures
        near_hit(new_nodes, c, limit),
{
    let j = choose|j: int| #[trigger] found_at(old_nodes, c, j) && old_nodes[j].cost <= limit;
    assert(found_at(new_nodes, c, j));
}

/// The neighbors of a closed node stay found as the search goes on.
proof fn lemma_extends_closure(
    old_nodes: Seq<PathingNode>,
    new_nodes: Seq<PathingNode>,
    i: int,
    walls: Seq<Wall>,
    blocked: Seq<GridCoord>,
)
    requires
        extends(old_nodes, new_nodes),
        0 <= i < old_nodes.len(),
        old_nodes[i].closed,
        closure_ok(old_nodes, i, walls, blocked),
    ensures
        closure_ok(new_nodes, i, walls, blocked),
{
    assert(new_nodes[i] == old_nodes[i]);
    assert forall|c: GridCoord| #[trigger] open_step(new_nodes[i].position, c, walls, blocked) implies near_hit(
        new_nodes,
        c,
        new_nodes[i].cost + 1,
    ) by {
        assert(open_step(old_nodes[i].position, c, walls, blocked));
        lemma_extends_near_hit(old_nodes, new_nodes, c, old_nodes[i].cost + 1);
    }
}

/// A route with one more open step is a route.
proof fn lemma_longer_route(
    from: GridCoord,
    to: GridCoord,
    path: Seq<GridCoord>,
    beyond: GridCoord,
    walls: Seq<Wall>,
    blocked: Seq<GridCoord>,
)
    requires
        is_route(from, to, path, walls, blocked),
        open_step(to, beyond, walls, blocked),
    ensures
        is_route(from, beyond, path.push(beyond), walls, blocked),
{
    let longer = path.push(beyond);
    assert forall|k: int| 0 <= k < longer.len() implies open_step(
        route_origin(from, longer, k),
        #[trigger] longer[k],
        walls,
        blocked,
    ) by {
        if k < path.len() {
            assert(longer[k] == path[k]);
            assert(route_origin(from, longer, k) == route_origin(from, path, k));
        }
    }
}

/// The first part of a route is a route.
proof fn lemma_shorter_route(
    from: GridCoord,
    to: GridCoord,
    path: Seq<GridCoord>,
    k: int,
    walls: Seq<Wall>,
    blocked: Seq<GridCoord>,
)
    requires
        is_route(from, to, path, walls, blocked),
        0 <= k <= path.len(),
    ensures
        is_route(from, route_origin(from, path, k), path.subrange(0, k), walls, blocked),
{
    let part = path.subrange(0, k);
    assert forall|m: int| 0 <= m < part.len() implies open_step(
        route_origin(from, part, m),
        #[trigger] part[m],
        walls,
        blocked,
    ) by {
        assert(part[m] == path[m]);
        assert(route_origin(from, part, m) == route_origin(from, path, m));
    }
}

/// No route is shorter than the number of steps between its ends.
pub proof fn lemma_route_length(
    from: GridCoord,
    to: GridCoord,
    path: Seq<GridCoord>,
    walls: Seq<Wall>,
    blocked: Seq<GridCoord>,
)
    requires
        is_route(from, to, path, walls, blocked),
    ensures
        path.len() >= steps_apart(from, to),
    decreases path.len(),
{
    if path.len() > 0 {
        let k = path.len() - 1;
        let before = route_origin(from, path, k);
        lemma_shorter_route(from, to, path, k, walls, blocked);
        lemma_route_length(from, before, path.subrange(0, k), walls, blocked);
        assert(open_step(before, path[k], walls, blocked));
    }
}

/// With no wall about and no blocked cell in the block between them, other
/// than the first, the straight way between two cells is a route, and it
/// has as many cells as the two are steps apart.
pub proof fn lemma_straight_way(from: GridCoord, to: GridCoord, at: GridCoord, blocked: Seq<GridCoord>)
    requires
        in_block(from, to, at),
        forall|c: GridCoord| blocked.contains(c) && in_block(from, to, c) ==> c == from,
        at == from || !blocked.contains(at),
    ensures
        is_route(at, to, straight_way(at, to), Seq::<Wall>::empty(), blocked),
        straight_way(at, to).len() == steps_apart(at, to),
        forall|k: int| 0 <= k < straight_way(at, to).len() ==> #[trigger] straight_way(at, to)[k] != from,
    decreases steps_apart(at, to),
{
    if at != to {
        let next = step_nearer(at, to);
        let rest = straight_way(next, to);
        let whole = straight_way(at, to);
        assert(in_block(from, to, next));
        assert(next != from) by {
            // the way never turns back toward the first cell
            assert(steps_apart(from, next) == steps_apart(from, at) + 1);
        }
        lemma_straight_way(from, to, next, blocked);
        assert(whole == seq![next] + rest);
        assert(whole.len() == rest.len() + 1);
        assert forall|k: int| 0 <= k < whole.len() implies open_step(
            route_origin(at, whole, k),
            #[trigger] whole[k],
            Seq::<Wall>::empty(),
            blocked,
        ) by {
            if k == 0 {
                assert(whole[0] == next);
            } else {
                assert(whole[k] == rest[k - 1]);
                assert(route_origin(at, whole, k) == route_origin(next, rest, k - 1));
                assert(open_step(route_origin(next, rest, k - 1), rest[k - 1], Seq::<Wall>::empty(), blocked));
            }
        }
        if rest.len() == 0 {
            assert(whole.last() == next);
        } else {
            assert(whole.last() == rest.last());
        }
        assert forall|k: int| 0 <= k < whole.len() implies #[trigger] whole[k] != from by {
            if k > 0 {
                assert(whole[k] == rest[k - 1]);
            }
        }
    }
}

/// With no wall about and no blocked cell in the block between them, other
/// than the first, a shortest route between two cells has as many cells as
/// the two are steps apart.
pub proof fn lemma_open_field_length(from: GridCoord, to: GridCoord, path: Seq<GridCoord>, blocked: Seq<GridCoord>)
    requires
        is_route(from, to, path, Seq::<Wall>::empty(), blocked),
        is_shortest(from, to, path, Seq::<Wall>::empty(), blocked),
        forall|c: GridCoord| blocked.contains(c) && in_block(from, to, c) ==> c == from,
    ensures
        path.len() == steps_apart(from, to),
{
    lemma_route_length(from, to, path, Seq::<Wall>::empty(), blocked);
    lemma_straight_way(from, to, from, blocked);
    assert(is_route(from, to, straight_way(from, to), Seq::<Wall>::empty(), blocked));
}

/// One step changes the straight-line distance to a cell by no more than
/// one cell.
proof fn lemma_distance_step(a: GridCoord, b: GridCoord, to: GridCoord)
    requires
        a.touches(b),
    ensures
        a.spec_distance_to(to) <= b.spec_distance_to(to) + 256,
{
    let da = a.spec_squared_distance_to(to);
    let db = b.spec_squared_distance_to(to);
    let ra = a.spec_distance_to(to);
    let rb = b.spec_distance_to(to);
    lemma_floor_root_exists(da * 65536);
    lemma_floor_root_exists(db * 65536);
    // along the axis of the step, `b` lies `u` from the goal, and `a` one nearer or farther
    let u: int = if a.x != b.x {
        b.x - to.x
    } else {
        b.y - to.y
    };
    let v: int = if a.x != b.x {
        b.y - to.y
    } else {
        b.x - to.x
    };
    let w: int = if u < 0 {
        -u
    } else {
        u
    };
    assert((b.x - to.x) * (b.x - to.x) >= 0 && (b.y - to.y) * (b.y - to.y) >= 0) by (nonlinear_arith);
    assert((a.x - to.x) * (a.x - to.x) >= 0 && (a.y - to.y) * (a.y - to.y) >= 0) by (nonlinear_arith);
    assert(db == u * u + v * v) by (nonlinear_arith)
        requires
            db == (b.x - to.x) * (b.x - to.x) + (b.y - to.y) * (b.y - to.y),
            (u == b.x - to.x && v == b.y - to.y) || (u == b.y - to.y && v == b.x - to.x),
    ;
    assert(da == (u + 1) * (u + 1) + v * v || da == (u - 1) * (u - 1) + v * v) by (nonlinear_arith)
        requires
            da == (a.x - to.x) * (a.x - to.x) + (a.y - to.y) * (a.y - to.y),
            (a.x - to.x == u + 1 && a.y - to.y == v) || (a.x - to.x == u - 1 && a.y - to.y == v) || (a.y
                - to.y == u + 1 && a.x - to.x == v) || (a.y - to.y == u - 1 && a.x - to.x == v),
    ;
    assert(da <= db + 2 * w + 1) by (nonlinear_arith)
        requires
            db == u * u + v * v,
            da == (u + 1) * (u + 1) + v * v || da == (u - 1) * (u - 1) + v * v,
            w == u || w == -u,
            w >= 0,
    ;
    assert(w * w <= db) by (nonlinear_arith)
        requires
            db == u * u + v * v,
            w == u || w == -u,
    ;
    if ra > rb + 256 {
        if rb + 1 <= 256 * w {
            assert((rb + 1) * (rb + 1) <= 65536 * (w * w)) by (nonlinear_arith)
                requires
                    0 <= rb + 1 <= 256 * w,
            ;
            assert(65536 * (w * w) <= db * 65536) by (nonlinear_arith)
                requires
                    w * w <= db,
            ;
        }
        assert(ra * ra >= (rb + 257) * (rb + 257)) by (nonlinear_arith)
            requires
                ra >= rb + 257,
                rb >= 0,
        ;
        assert((rb + 257) * (rb + 257) == (rb + 1) * (rb + 1) + 512 * (rb + 1) + 65536) by (nonlinear_arith);
        assert(da * 65536 <= db * 65536 + 131072 * w + 65536) by (nonlinear_arith)
            requires
                da <= db + 2 * w + 1,
        ;
    }
}

/// Along a route the straight-line distance to a cell falls by no more than
/// one cell a step.
proof fn lemma_distance_along(
    from: GridCoord,
    goal: GridCoord,
    path: Seq<GridCoord>,
    k: int,
    m: int,
    to: GridCoord,
    walls: Seq<Wall>,
    blocked: Seq<GridCoord>,
)
    requires
        is_route(from, goal, path, walls, blocked),
        0 <= k <= m < path.len(),
    ensures
        path[k].spec_distance_to(to) <= 256 * (m - k) + path[m].spec_distance_to(to),
    decreases m - k,
{
    if k < m {
        lemma_distance_along(from, goal, path, k, m - 1, to, walls, blocked);
        assert(open_step(route_origin(from, path, m), path[m], walls, blocked));
        lemma_distance_step(path[m - 1], path[m], to);
    }
}

/// The first cell of a route, up to the one numbered `upto`, that the search
/// has not closed.
proof fn lemma_first_unclosed(nodes: Seq<PathingNode>, path: Seq<GridCoord>, upto: int) -> (k: int)
    requires
        0 <= upto < path.len(),
        !closed_at(nodes, path[upto]),
    ensures
        0 <= k <= upto,
        !closed_at(nodes, path[k]),
        forall|m: int| 0 <= m < k ==> closed_at(nodes, #[trigger] path[m]),
    decreases upto,
{
    if exists|m: int| 0 <= m < upto && !closed_at(nodes, #[trigger] path[m]) {
        let m = choose|m: int| 0 <= m < upto && !closed_at(nodes, #[trigger] path[m]);
        lemma_first_unclosed(nodes, path, m)
    } else {
        upto
    }
}

/// The open node that comes next is no worse than the first unclosed cell
/// of any route that ends on an unclosed cell.
proof fn lemma_next_bound(
    nodes: Seq<PathingNode>,
    ci: int,
    r: Seq<GridCoord>,
    goal: GridCoord,
    from: GridCoord,
    to: GridCoord,
    walls: Seq<Wall>,
    blocked: Seq<GridCoord>,
    bound: int,
)
    requires
        tree_ok(nodes, from, to, walls, blocked, bound),
        0 <= ci < nodes.len(),
        !nodes[ci].closed,
        forall|j: int| 0 <= j < nodes.len() && !(#[trigger] nodes[j]).closed ==> nodes[ci].priority <= nodes[j].priority,
        forall|i: int| 0 <= i < nodes.len() && (#[trigger] nodes[i]).closed ==> closure_ok(nodes, i, walls, blocked),
        forall|i: int| 0 <= i < nodes.len() && (#[trigger] nodes[i]).closed ==> settled(nodes, i, from, walls, blocked),
        nodes[0].closed,
        is_route(from, goal, r, walls, blocked),
        r.len() > 0,
        !closed_at(nodes, goal),
    ensures
        nodes[ci].priority <= 256 * r.len() + goal.spec_distance_to(to),
{
    let last = r.len() - 1;
    let k = lemma_first_unclosed(nodes, r, last);
    // the cell before the first unclosed one is closed, and no route to it is shorter
    let origin = route_origin(from, r, k);
    let io: int = if k == 0 {
        0
    } else {
        assert(closed_at(nodes, r[k - 1]));
        choose|j: int| #[trigger] found_at(nodes, r[k - 1], j) && nodes[j].closed
    };
    assert(found_at(nodes, origin, io) && nodes[io].closed);
    lemma_shorter_route(from, goal, r, k, walls, blocked);
    assert(settled(nodes, io, from, walls, blocked));
    assert(is_route(from, nodes[io].position, r.subrange(0, k), walls, blocked));
    assert(nodes[io].cost <= k);
    assert(closure_ok(nodes, io, walls, blocked));
    assert(open_step(nodes[io].position, r[k], walls, blocked));
    assert(near_hit(nodes, r[k], nodes[io].cost + 1));
    let j = choose|j: int| #[trigger] found_at(nodes, r[k], j) && nodes[j].cost <= nodes[io].cost + 1;
    if nodes[j].closed {
        assert(closed_at(nodes, r[k]));
    }
    assert(nodes[ci].priority <= nodes[j].priority);
    lemma_distance_along(from, goal, r, k, last, to, walls, blocked);
}

/// The open node that comes next has as few steps counted as any route to
/// its cell is long, and no more than any route to the goal.
proof fn lemma_next_is_settled(
    nodes: Seq<PathingNode>,
    ci: int,
    from: GridCoord,
    to: GridCoord,
    walls: Seq<Wall>,
    blocked: Seq<GridCoord>,
    bound: int,
)
    requires
        tree_ok(nodes, from, to, walls, blocked, bound),
        from != to,
        0 <= ci < nodes.len(),
        !nodes[ci].closed,
        forall|j: int| 0 <= j < nodes.len() && !(#[trigger] nodes[j]).closed ==> nodes[ci].priority <= nodes[j].priority,
        forall|i: int| 0 <= i < nodes.len() && (#[trigger] nodes[i]).closed ==> closure_ok(nodes, i, walls, blocked),
        forall|i: int| 0 <= i < nodes.len() && (#[trigger] nodes[i]).closed ==> settled(nodes, i, from, walls, blocked),
        ci != 0 ==> nodes[0].closed,
    ensures
        settled(nodes, ci, from, walls, blocked),
        forall|r: Seq<GridCoord>| #[trigger]
            is_route(from, to, r, walls, blocked) ==> steps_apart(from, nodes[ci].position) <= r.len(),
{
    let here = nodes[ci].position;
    lemma_cost_zero(nodes, ci, from, to, walls, blocked, bound);
    assert(!closed_at(nodes, here)) by {
        if closed_at(nodes, here) {
            let j = choose|j: int| #[trigger] found_at(nodes, here, j) && nodes[j].closed;
            lemma_same_cell(nodes, here, j, ci, from, to, walls, blocked, bound);
        }
    }
    assert forall|r: Seq<GridCoord>| #[trigger] is_route(from, here, r, walls, blocked) implies nodes[ci].cost
        <= r.len() by {
        if ci != 0 {
            if r.len() == 0 {
                assert(found_at(nodes, here, 0));
                lemma_same_cell(nodes, here, 0, ci, from, to, walls, blocked, bound);
            }
            lemma_next_bound(nodes, ci, r, here, from, to, walls, blocked, bound);
        }
    }
    assert forall|r: Seq<GridCoord>| #[trigger] is_route(from, to, r, walls, blocked) implies steps_apart(
        from,
        here,
    ) <= r.len() by {
        if ci != 0 {
            assert(!closed_at(nodes, to)) by {
                if closed_at(nodes, to) {
                    let j = choose|j: int| #[trigger] found_at(nodes, to, j) && nodes[j].closed;
                }
            }
            lemma_floor_root_of_zero();
            lemma_next_bound(nodes, ci, r, to, from, to, walls, blocked, bound);
            lemma_trail(nodes, ci, from, to, walls, blocked, bound);
            lemma_route_length(from, here, trail(nodes, ci, nodes[ci].cost as nat), walls, blocked);
        }
    }
}

/// The trail of a node is a route to its cell, of as many cells as steps
/// are counted for it.
proof fn lemma_trail(
    nodes: Seq<PathingNode>,
    i: int,
    from: GridCoord,
    to: GridCoord,
    walls: Seq<Wall>,
    blocked: Seq<GridCoord>,
    bound: int,
)
    requires
        tree_ok(nodes, from, to, walls, blocked, bound),
        0 <= i < nodes.len(),
    ensures
        trail(nodes, i, nodes[i].cost as nat).len() == nodes[i].cost,
        is_route(from, nodes[i].position, trail(nodes, i, nodes[i].cost as nat), walls, blocked),
        nodes[i].cost == 0 <==> i == 0,
    decreases nodes[i].cost,
{
    lemma_cost_zero(nodes, i, from, to, walls, blocked, bound);
    if i == 0 {
    } else {
        let p = nodes[i].parent as int;
        assert(link_ok(nodes, i, walls, blocked));
        lemma_trail(nodes, p, from, to, walls, blocked, bound);
        let before = trail(nodes, p, nodes[p].cost as nat);
        let whole = trail(nodes, i, nodes[i].cost as nat);
        assert(whole == before.push(nodes[i].position));
        assert forall|k: int| 0 <= k < whole.len() implies open_step(
            route_origin(from, whole, k),
            #[trigger] whole[k],
            walls,
            blocked,
        ) by {
            if k < before.len() {
                assert(whole[k] == before[k]);
                assert(route_origin(from, whole, k) == route_origin(from, before, k));
            } else {
                if k == 0 {
                    assert(p == 0);
                } else {
                    assert(before.last() == nodes[p].position);
                }
            }
        }
    }
}

/// Every cell that the search has found lies in every enclosure around the
/// start.
proof fn lemma_found_in_region(
    nodes: Seq<PathingNode>,
    i: int,
    region: Set<GridCoord>,
    from: GridCoord,
    to: GridCoord,
    walls: Seq<Wall>,
    blocked: Seq<GridCoord>,
    bound: int,
)
    requires
        tree_ok(nodes, from, to, walls, blocked, bound),
        0 <= i < nodes.len(),
        is_enclosure(region, from, walls, blocked),
    ensures
        region.contains(nodes[i].position),
    decreases nodes[i].cost,
{
    if i != 0 {
        let p = nodes[i].parent as int;
        assert(link_ok(nodes, i, walls, blocked));
        lemma_found_in_region(nodes, p, region, from, to, walls, blocked, bound);
        assert(open_step(nodes[p].position, nodes[i].position, walls, blocked));
    }
}

/// Where the search has found more cells than the cap, every enclosure
/// around the start holds more cells than the cap.
proof fn lemma_cap_reached(
    nodes: Seq<PathingNode>,
    cells: Seq<GridCoord>,
    from: GridCoord,
    to: GridCoord,
    walls: Seq<Wall>,
    blocked: Seq<GridCoord>,
    bound: int,
)
    requires
        tree_ok(nodes, from, to, walls, blocked, bound),
        cells.no_duplicates(),
        cells.len() > EXPANSION_CAP,
        forall|k: int| 0 <= k < cells.len() ==> discovered(nodes, #[trigger] cells[k]),
    ensures
        beyond_cap(from, walls, blocked),
{
    assert forall|region: Set<GridCoord>| #[trigger]
        is_enclosure(region, from, walls, blocked) implies region.len() > EXPANSION_CAP by {
        assert forall|c: GridCoord| cells.to_set().contains(c) implies region.contains(c) by {
            let k = choose|k: int| 0 <= k < cells.len() && cells[k] == c;
            assert(discovered(nodes, cells[k]));
            let j = choose|j: int| found_at(nodes, c, j);
            lemma_found_in_region(nodes, j, region, from, to, walls, blocked, bound);
        }
        cells.unique_seq_to_set();
        vstd::set_lib::lemma_len_subset(cells.to_set(), region);
    }
}

/// Once every node is closed, every route from the start stays on cells
/// that the search has found.
proof fn lemma_route_stays(
    nodes: Seq<PathingNode>,
    path: Seq<GridCoord>,
    k: int,
    from: GridCoord,
    to: GridCoord,
    goal: GridCoord,
    walls: Seq<Wall>,
    blocked: Seq<GridCoord>,
    bound: int,
)
    requires
        tree_ok(nodes, from, to, walls, blocked, bound),
        forall|i: int| 0 <= i < nodes.len() ==> (#[trigger] nodes[i]).closed,
        forall|i: int| 0 <= i < nodes.len() ==> closure_ok(nodes, i, walls, blocked),
        is_route(from, goal, path, walls, blocked),
        0 <= k < path.len(),
    ensures
        discovered(nodes, path[k]),
    decreases k,
{
    let origin = route_origin(from, path, k);
    if k == 0 {
        assert(found_at(nodes, origin, 0));
    } else {
        lemma_route_stays(nodes, path, k - 1, from, to, goal, walls, blocked, bound);
    }
    let j = choose|j: int| found_at(nodes, origin, j);
    assert(closure_ok(nodes, j, walls, blocked));
    assert(open_step(nodes[j].position, path[k], walls, blocked));
    assert(near_hit(nodes, path[k], nodes[j].cost + 1));
    let n = choose|n: int| #[trigger] found_at(nodes, path[k], n) && nodes[n].cost <= nodes[j].cost + 1;
    assert(found_at(nodes, path[k], n));
}

/// Once every node is closed, no route leads to the goal.
proof fn lemma_exhausted(
    nodes: Seq<PathingNode>,
    from: GridCoord,
    to: GridCoord,
    walls: Seq<Wall>,
    blocked: Seq<GridCoord>,
    bound: int,
)
    requires
        tree_ok(nodes, from, to, walls, blocked, bound),
        from != to,
        forall|i: int| 0 <= i < nodes.len() ==> (#[trigger] nodes[i]).closed,
        forall|i: int| 0 <= i < nodes.len() ==> closure_ok(nodes, i, walls, blocked),
    ensures
        !reachable(from, to, walls, blocked),
{
    assert forall|path: Seq<GridCoord>| !is_route(from, to, path, walls, blocked) by {
        if is_route(from, to, path, walls, blocked) {
            lemma_route_stays(nodes, path, path.len() - 1, from, to, to, walls, blocked, bound);
            let j = choose|j: int| found_at(nodes, path.last(), j);
            assert(nodes[j].closed);
        }
    }
}

/// How many cells lie within ten steps of a cell in the rows north of the
/// row `dy` rows south of it.
spec fn row_start(dy: int) -> int {
    if dy <= -10 {
        0
    } else if dy == -9 {
        1
    } else if dy == -8 {
        4
    } else if dy == -7 {
        9
    } else if dy == -6 {
        16
    } else if dy == -5 {
        25
    } else if dy == -4 {
        36
    } else if dy == -3 {
        49
    } else if dy == -2 {
        64
    } else if dy == -1 {
        81
    } else if dy == 0 {
        100
    } else if dy == 1 {
        121
    } else if dy == 2 {
        140
    } else if dy == 3 {
        157
    } else if dy == 4 {
        172
    } else if dy == 5 {
        185
    } else if dy == 6 {
        196
    } else if dy == 7 {
        205
    } else if dy == 8 {
        212
    } else if dy == 9 {
        217
    } else {
        220
    }
}

/// The place of `c` among the cells within ten steps of `from`, counted row
/// by row from the north and from west to east.
spec fn place_near(from: GridCoord, c: GridCoord) -> int {
    let dx = c.x - from.x;
    let dy = c.y - from.y;
    let half = 10 - if dy < 0 {
        -dy
    } else {
        dy
    };
    row_start(dy) + dx + half
}

/// Numbers that differ, all of them from zero up to `n`, are no more than
/// `n`.
proof fn lemma_few_places(places: Seq<int>, n: nat)
    requires
        places.no_duplicates(),
        forall|k: int| 0 <= k < places.len() ==> 0 <= #[trigger] places[k] < n,
    ensures
        places.len() <= n,
{
    let all = vstd::set_lib::set_int_range(0, n as int);
    vstd::set_lib::lemma_int_range(0, n as int);
    assert forall|p: int| places.to_set().contains(p) implies all.contains(p) by {
        let k = choose|k: int| 0 <= k < places.len() && places[k] == p;
        assert(0 <= places[k] < n);
    }
    places.unique_seq_to_set();
    vstd::set_lib::lemma_len_subset(places.to_set(), all);
}

/// No more than 221 cells lie within ten steps of a cell.
proof fn lemma_few_cells_near(from: GridCoord, cells: Seq<GridCoord>)
    requires
        cells.no_duplicates(),
        forall|k: int| 0 <= k < cells.len() ==> steps_apart(from, #[trigger] cells[k]) <= 10,
    ensures
        cells.len() <= 221,
{
    let places = Seq::new(cells.len(), |k: int| place_near(from, cells[k]));
    assert forall|k: int| 0 <= k < places.len() implies 0 <= #[trigger] places[k] < 221 by {
        assert(steps_apart(from, cells[k]) <= 10);
    }
    assert forall|a: int, b: int| 0 <= a < places.len() && 0 <= b < places.len() && a != b implies places[a]
        != places[b] by {
        assert(steps_apart(from, cells[a]) <= 10);
        assert(steps_apart(from, cells[b]) <= 10);
        assert(cells[a] != cells[b]);
        let ya = cells[a].y - from.y;
        let yb = cells[b].y - from.y;
        if ya != yb {
            if ya < yb {
                assert(row_start(ya + 1) <= row_start(yb));
            } else {
                assert(row_start(yb + 1) <= row_start(ya));
            }
        }
    }
    lemma_few_places(places, 221);
}

/// Two different cells lie at least one cell apart.
proof fn lemma_apart(a: GridCoord, b: GridCoord)
    requires
        a != b,
    ensures
        a.spec_squared_distance_to(b) >= 1,
{
    let dx = a.x - b.x;
    let dy = a.y - b.y;
    assert(dx * dx >= 0 && dy * dy >= 0) by (nonlinear_arith);
    if dx != 0 {
        assert(dx * dx >= 1) by (nonlinear_arith)
            requires
                dx != 0,
        ;
    } else {
        assert(dy * dy >= 1) by (nonlinear_arith)
            requires
                dy != 0,
        ;
    }
}

/// Whether `c` is among `cells`.
fn contains_cell(cells: &Vec<GridCoord>, c: GridCoord) -> (yes: bool)
    ensures
        yes == cells@.contains(c),
{
    let mut i: usize = 0;
    while i < cells.len()
        invariant
            i <= cells.len(),
            forall|j: int| 0 <= j < i ==> cells@[j] != c,
        decreases cells.len() - i,
    {
        if cells[i] == c {
            return true;
        }
        i += 1;
    }
    false
}

/// Whether some wall shuts the way between `a` and `b`.
fn walled_off(walls: &Vec<Wall>, a: GridCoord, b: GridCoord) -> (yes: bool)
    ensures
        yes == !(forall|i: int| 0 <= i < walls.len() ==> !(#[trigger] walls[i]).blocks(a, b)),
{
    let mut i: usize = 0;
    while i < walls.len()
        invariant
            i <= walls.len(),
            forall|j: int| 0 <= j < i ==> !(#[trigger] walls[j]).blocks(a, b),
        decreases walls.len() - i,
    {
        if walls[i].is_blocking(a, b) {
            return true;
        }
        i += 1;
    }
    false
}

/// The node that stands for the cell `c`, if there is one.
fn find_node(nodes: &Vec<PathingNode>, c: GridCoord) -> (found: Option<usize>)
    ensures
        found matches Some(j) ==> found_at(nodes@, c, j as int),
        found is None ==> !discovered(nodes@, c),
{
    let mut i: usize = 0;
    while i < nodes.len()
        invariant
            i <= nodes.len(),
            forall|j: int| 0 <= j < i ==> !found_at(nodes@, c, j),
        decreases nodes.len() - i,
    {
        if nodes[i].position == c {
            return Some(i);
        }
        i += 1;
    }
    None
}

/// The open node with the least priority, the first of them where several
/// share it.
fn pick_open(nodes: &Vec<PathingNode>) -> (picked: Option<usize>)
    ensures
        picked matches Some(i) ==> i < nodes.len() && !nodes[i as int].closed && forall|j: int|
            0 <= j < nodes.len() && !(#[trigger] nodes[j]).closed ==> nodes[i as int].priority
                <= nodes[j].priority,
        picked is None ==> forall|j: int| 0 <= j < nodes.len() ==> (#[trigger] nodes[j]).closed,
{
    let mut best: Option<usize> = None;
    let mut i: usize = 0;
    while i < nodes.len()
        invariant
            i <= nodes.len(),
            best matches Some(b) ==> b < i && !nodes[b as int].closed && forall|j: int|
                0 <= j < i && !(#[trigger] nodes[j]).closed ==> nodes[b as int].priority
                    <= nodes[j].priority,
            best is None ==> forall|j: int| 0 <= j < i ==> (#[trigger] nodes[j]).closed,
        decreases nodes.len() - i,
    {
        if !nodes[i].closed {
            match best {
                None => {
                    best = Some(i);
                },
                Some(b) => {
                    if nodes[i].priority < nodes[b].priority {
                        best = Some(i);
                    }
                },
            }
        }
        i += 1;
    }
    best
}

/// Closed nodes stay as short as any route as the search goes on.
proof fn lemma_keeps_settled(
    old_nodes: Seq<PathingNode>,
    new_nodes: Seq<PathingNode>,
    from: GridCoord,
    walls: Seq<Wall>,
    blocked: Seq<GridCoord>,
)
    requires
        extends(old_nodes, new_nodes),
        forall|j: int| old_nodes.len() <= j < new_nodes.len() ==> !(#[trigger] new_nodes[j]).closed,
        forall|i: int|
            0 <= i < old_nodes.len() && (#[trigger] old_nodes[i]).closed ==> settled(
                old_nodes,
                i,
                from,
                walls,
                blocked,
            ),
    ensures
        forall|i: int|
            0 <= i < new_nodes.len() && (#[trigger] new_nodes[i]).closed ==> settled(
                new_nodes,
                i,
                from,
                walls,
                blocked,
            ),
{
    assert forall|i: int| 0 <= i < new_nodes.len() && (#[trigger] new_nodes[i]).closed implies settled(
        new_nodes,
        i,
        from,
        walls,
        blocked,
    ) by {
        assert(i < old_nodes.len());
        assert(old_nodes[i].closed);
        assert(new_nodes[i] == old_nodes[i]);
        assert(settled(old_nodes, i, from, walls, blocked));
    }
}

/// Looks from the node `ci`, which has just been closed, at the cell `dx`
/// columns east and `dy` rows south of it.
fn relax_toward(
    nodes: &mut Vec<PathingNode>,
    ci: usize,
    dx: i32,
    dy: i32,
    to: GridCoord,
    walls: &Vec<Wall>,
    blocked: &Vec<GridCoord>,
    Ghost(from): Ghost<GridCoord>,
    Ghost(bound): Ghost<int>,
)
    requires
        tree_ok(old(nodes)@, from, to, walls@, blocked@, bound),
        ci < old(nodes).len(),
        old(nodes)[ci as int].closed,
        bound <= 251,
        forall|i: int|
            0 <= i < old(nodes).len() && (#[trigger] old(nodes)[i]).closed ==> settled(
                old(nodes)@,
                i,
                from,
                walls@,
                blocked@,
            ),
        (dx == 0 && (dy == 1 || dy == -1)) || (dy == 0 && (dx == 1 || dx == -1)),
    ensures
        tree_ok(final(nodes)@, from, to, walls@, blocked@, bound),
        extends(old(nodes)@, final(nodes)@),
        forall|j: int| old(nodes).len() <= j < final(nodes).len() ==> !(#[trigger] final(nodes)[j]).closed,
        forall|c: GridCoord|
            old(nodes)[ci as int].position.shifted(dx as int, dy as int) == Some(c) && open_step(
                old(nodes)[ci as int].position,
                c,
                walls@,
                blocked@,
            ) ==> near_hit(final(nodes)@, c, old(nodes)[ci as int].cost + 1),
{
    let current = nodes[ci];
    let neighbor = match current.position.offset((dx, dy)) {
        Some(cell) => cell,
        None => {
            return ;
        },
    };
    if contains_cell(blocked, neighbor) || walled_off(walls, current.position, neighbor) {
        return ;
    }
    assert(open_step(current.position, neighbor, walls@, blocked@));
    let tentative: u32 = current.cost + 1;
    let priority: u128 = 256 * (tentative as u128) + (neighbor.pythagorean_distance_to(&to) as u128);
    let fresh = PathingNode { position: neighbor, cost: tentative, priority, parent: ci, closed: false };
    match find_node(nodes, neighbor) {
        None => {
            proof {
                lemma_push_node(nodes@, fresh, from, to, walls@, blocked@, bound);
            }
            nodes.push(fresh);
            proof {
                assert(found_at(nodes@, neighbor, nodes@.len() - 1));
            }
        },
        Some(j) => {
            let known = nodes[j];
            proof {
                lemma_cost_zero(nodes@, j as int, from, to, walls@, blocked@, bound);
                lemma_cost_zero(nodes@, ci as int, from, to, walls@, blocked@, bound);
            }
            if !known.closed && tentative < known.cost {
                proof {
                    lemma_improve_node(nodes@, j as int, fresh, from, to, walls@, blocked@, bound);
                }
                nodes.set(j, fresh);
                proof {
                    assert(found_at(nodes@, neighbor, j as int));
                }
            } else {
                proof {
                    assert(found_at(nodes@, neighbor, j as int));
                    if known.closed {
                        // no route to a closed cell is shorter than its count, and one leads through here
                        lemma_trail(nodes@, ci as int, from, to, walls@, blocked@, bound);
                        lemma_longer_route(
                            from,
                            current.position,
                            trail(nodes@, ci as int, current.cost as nat),
                            neighbor,
                            walls@,
                            blocked@,
                        );
                        assert(settled(nodes@, j as int, from, walls@, blocked@));
                    }
                }
            }
        },
    }
}

/// Closes the node `ci` and looks at its four neighbors: north, south, west,
/// east.
fn expand(
    nodes: &mut Vec<PathingNode>,
    ci: usize,
    to: GridCoord,
    walls: &Vec<Wall>,
    blocked: &Vec<GridCoord>,
    Ghost(from): Ghost<GridCoord>,
    Ghost(bound): Ghost<int>,
)
    requires
        tree_ok(old(nodes)@, from, to, walls@, blocked@, bound - 1),
        ci < old(nodes).len(),
        !old(nodes)[ci as int].closed,
        old(nodes)[ci as int].position != to,
        1 <= bound <= 251,
        settled(old(nodes)@, ci as int, from, walls@, blocked@),
        forall|i: int|
            0 <= i < old(nodes).len() && (#[trigger] old(nodes)[i]).closed ==> settled(
                old(nodes)@,
                i,
                from,
                walls@,
                blocked@,
            ),
        forall|i: int|
            0 <= i < old(nodes).len() && (#[trigger] old(nodes)[i]).closed ==> closure_ok(
                old(nodes)@,
                i,
                walls@,
                blocked@,
            ),
    ensures
        tree_ok(final(nodes)@, from, to, walls@, blocked@, bound),
        old(nodes).len() <= final(nodes).len(),
        forall|j: int|
            0 <= j < old(nodes).len() ==> {
                &&& (#[trigger] final(nodes)[j]).position == old(nodes)[j].position
                &&& final(nodes)[j].closed == (old(nodes)[j].closed || j == ci)
            },
        forall|j: int| old(nodes).len() <= j < final(nodes).len() ==> !(#[trigger] final(nodes)[j]).closed,
        forall|i: int|
            0 <= i < final(nodes).len() && (#[trigger] final(nodes)[i]).closed ==> settled(
                final(nodes)@,
                i,
                from,
                walls@,
                blocked@,
            ),
        forall|i: int|
            0 <= i < final(nodes).len() && (#[trigger] final(nodes)[i]).closed ==> closure_ok(
                final(nodes)@,
                i,
                walls@,
                blocked@,
            ),
{
    let current = nodes[ci];
    nodes.set(
        ci,
        PathingNode {
            position: current.position,
            cost: current.cost,
            priority: current.priority,
            parent: current.parent,
            closed: true,
        },
    );
    let ghost n0 = nodes@;
    proof {
        lemma_close_node(old(nodes)@, ci as int, n0[ci as int], from, to, walls@, blocked@, bound);
        assert(n0 =~= old(nodes)@.update(ci as int, n0[ci as int]));
        assert forall|i: int| 0 <= i < n0.len() && (#[trigger] n0[i]).closed implies settled(
            n0,
            i,
            from,
            walls@,
            blocked@,
        ) by {
            assert(n0[i].position == old(nodes)@[i].position && n0[i].cost == old(nodes)@[i].cost);
            if i != ci {
                assert(old(nodes)@[i].closed);
                assert(settled(old(nodes)@, i, from, walls@, blocked@));
            }
        }
    }
    relax_toward(nodes, ci, 0, -1, to, walls, blocked, Ghost(from), Ghost(bound));
    let ghost n1 = nodes@;
    proof {
        lemma_keeps_settled(n0, n1, from, walls@, blocked@);
    }
    relax_toward(nodes, ci, 0, 1, to, walls, blocked, Ghost(from), Ghost(bound));
    let ghost n2 = nodes@;
    proof {
        lemma_keeps_settled(n1, n2, from, walls@, blocked@);
    }
    relax_toward(nodes, ci, -1, 0, to, walls, blocked, Ghost(from), Ghost(bound));
    let ghost n3 = nodes@;
    proof {
        lemma_keeps_settled(n2, n3, from, walls@, blocked@);
    }
    relax_toward(nodes, ci, 1, 0, to, walls, blocked, Ghost(from), Ghost(bound));
    let ghost n4 = nodes@;
    proof {
        lemma_keeps_settled(n3, n4, from, walls@, blocked@);
        let here = current.position;
        let limit = current.cost + 1;
        assert(extends(n0, n4));
        assert forall|j: int| n0.len() <= j < n4.len() implies !(#[trigger] n4[j]).closed by {
            if j < n1.len() {
                assert(n2[j].closed == n1[j].closed);
                assert(n3[j].closed == n2[j].closed);
            } else if j < n2.len() {
                assert(n3[j].closed == n2[j].closed);
            } else if j < n3.len() {
            }
        }
        assert forall|c: GridCoord| #[trigger] open_step(here, c, walls@, blocked@) implies near_hit(
            n4,
            c,
            limit,
        ) by {
            if here.shifted(0, -1) == Some(c) {
                lemma_extends_near_hit(n1, n2, c, limit);
                lemma_extends_near_hit(n2, n3, c, limit);
                lemma_extends_near_hit(n3, n4, c, limit);
            } else if here.shifted(0, 1) == Some(c) {
                lemma_extends_near_hit(n2, n3, c, limit);
                lemma_extends_near_hit(n3, n4, c, limit);
            } else if here.shifted(-1, 0) == Some(c) {
                lemma_extends_near_hit(n3, n4, c, limit);
            } else {
                assert(here.shifted(1, 0) == Some(c));
            }
        }
        assert(n4[ci as int] == n0[ci as int]);
        assert forall|i: int| 0 <= i < n4.len() && (#[trigger] n4[i]).closed implies closure_ok(
            n4,
            i,
            walls@,
            blocked@,
        ) by {
            if i != ci {
                assert(i < n0.len());
                assert(old(nodes)@[i].closed);
                assert(closure_ok(old(nodes)@, i, walls@, blocked@));
                assert(n0[i] == old(nodes)@[i]);
                assert forall|c: GridCoord| #[trigger] open_step(n0[i].position, c, walls@, blocked@) implies near_hit(
                    n0,
                    c,
                    n0[i].cost + 1,
                ) by {
                    assert(open_step(old(nodes)@[i].position, c, walls@, blocked@));
                    let j = choose|j: int| #[trigger]
                        found_at(old(nodes)@, c, j) && old(nodes)@[j].cost <= old(nodes)@[i].cost + 1;
                    assert(found_at(n0, c, j));
                }
                lemma_extends_closure(n0, n4, i, walls@, blocked@);
            }
        }
    }
}

/// The cells from the start to the node `goal`, the start left out.
fn trace_back(nodes: &Vec<PathingNode>, goal: usize) -> (path: Vec<GridCoord>)
    requires
        goal < nodes.len(),
        exists|from: GridCoord, to: GridCoord, walls: Seq<Wall>, blocked: Seq<GridCoord>, bound: int|
            tree_ok(nodes@, from, to, walls, blocked, bound),
    ensures
        path@ == trail(nodes@, goal as int, nodes[goal as int].cost as nat),
{
    let total: usize = nodes[goal].cost as usize;
    let ghost full = trail(nodes@, goal as int, total as nat);
    let ghost (from, to, walls, blocked, bound) = choose|
        from: GridCoord,
        to: GridCoord,
        walls: Seq<Wall>,
        blocked: Seq<GridCoord>,
        bound: int,
    | tree_ok(nodes@, from, to, walls, blocked, bound);
    let mut path: Vec<GridCoord> = Vec::new();
    while path.len() < total
        invariant
            path.len() <= total,
            goal < nodes.len(),
        decreases total - path.len(),
    {
        path.push(nodes[goal].position);
    }
    let mut current: usize = goal;
    let mut left: usize = total;
    proof {
        lemma_trail(nodes@, goal as int, from, to, walls, blocked, bound);
        assert(full.subrange(0, left as int) =~= full);
    }
    while left > 0
        invariant
            tree_ok(nodes@, from, to, walls, blocked, bound),
            current < nodes.len(),
            left == nodes[current as int].cost,
            left <= total,
            path.len() == total,
            full.len() == total,
            forall|k: int| left <= k < total ==> path@[k] == full[k],
            full.subrange(0, left as int) == trail(nodes@, current as int, left as nat),
        decreases left,
    {
        let node = nodes[current];
        proof {
            lemma_trail(nodes@, current as int, from, to, walls, blocked, bound);
            assert(link_ok(nodes@, current as int, walls, blocked));
            let before = trail(nodes@, node.parent as int, (left - 1) as nat);
            assert(trail(nodes@, current as int, left as nat) == before.push(node.position));
            assert(full[left - 1] == full.subrange(0, left as int)[left - 1]);
            assert(full.subrange(0, left - 1) =~= before);
        }
        path.set(left - 1, node.position);
        current = node.parent;
        left = left - 1;
    }
    proof {
        assert(path@ =~= full);
    }
    path
}

/// A search for a shortest way from `from` to `to` over cells that share
/// an edge. A step is open when no wall shuts the edge and the cell stepped
/// on is not in `blocked_squares`. Cells are expanded in the order of steps
/// taken plus straight-line distance left, the earlier found first among
/// equals, and each cell at most once.
///
/// The search gives up when nothing is left to expand or when it is asked to
/// expand more than `EXPANSION_CAP` cells. So it finds a route whenever one
/// exists and some enclosure around `from` holds no more cells than the cap,
/// or the route has no more than `SURE_REACH` cells; and no route is shorter
/// than the one it finds.
pub fn path_to(
    from: GridCoord,
    to: GridCoord,
    walls: &Vec<Wall>,
    blocked_squares: &Vec<GridCoord>,
) -> (route: Option<Vec<GridCoord>>)
    ensures
        from == to ==> (route matches Some(path) && path@.len() == 0),
        route matches Some(path) ==> is_route(from, to, path@, walls@, blocked_squares@),
        route matches Some(path) ==> is_shortest(from, to, path@, walls@, blocked_squares@),
        open_step(from, to, walls@, blocked_squares@) ==> (route matches Some(path) && path@ == seq![to]),
        route is None ==> !reachable(from, to, walls@, blocked_squares@) || beyond_cap(
            from,
            walls@,
            blocked_squares@,
        ),
        route is None ==> out_of_reach(from, to, walls@, blocked_squares@),
        search_outcome(from, to, walls@, blocked_squares@, route_view(route)),
{
    if from == to {
        let nothing: Vec<GridCoord> = Vec::new();
        assert(nothing@ =~= Seq::<GridCoord>::empty());
        return Some(nothing);
    }
    let mut nodes: Vec<PathingNode> = Vec::new();
    nodes.push(
        PathingNode {
            position: from,
            cost: 0,
            priority: from.pythagorean_distance_to(&to) as u128,
            parent: 0,
            closed: false,
        },
    );
    let mut loop_iterations: usize = 0;
    let ghost mut closed_cells: Seq<GridCoord> = Seq::empty();
    loop
        invariant
            from != to,
            tree_ok(nodes@, from, to, walls@, blocked_squares@, loop_iterations as int),
            loop_iterations <= EXPANSION_CAP,
            (loop_iterations == 0) == !nodes[0].closed,
            loop_iterations == 0 ==> nodes.len() == 1,
            forall|i: int|
                0 <= i < nodes.len() && (#[trigger] nodes[i]).closed ==> closure_ok(
                    nodes@,
                    i,
                    walls@,
                    blocked_squares@,
                ),
            forall|i: int|
                0 <= i < nodes.len() && (#[trigger] nodes[i]).closed ==> settled(
                    nodes@,
                    i,
                    from,
                    walls@,
                    blocked_squares@,
                ),
            open_step(from, to, walls@, blocked_squares@) ==> loop_iterations <= 1,
            closed_cells.no_duplicates(),
            closed_cells.len() == loop_iterations,
            forall|k: int| 0 <= k < closed_cells.len() ==> closed_at(nodes@, #[trigger] closed_cells[k]),
            forall|k: int, r: Seq<GridCoord>|
                0 <= k < closed_cells.len() && #[trigger] is_route(from, to, r, walls@, blocked_squares@)
                    ==> steps_apart(from, #[trigger] closed_cells[k]) <= r.len(),
        decreases EXPANSION_CAP - loop_iterations,
    {
        let picked = pick_open(&nodes);
        let ci = match picked {
            Some(i) => i,
            None => {
                proof {
                    lemma_exhausted(nodes@, from, to, walls@, blocked_squares@, loop_iterations as int);
                    assert forall|r: Seq<GridCoord>| #[trigger]
                        is_route(from, to, r, walls@, blocked_squares@) implies r.len() > SURE_REACH by {
                    }
                }
                return None;
            },
        };
        let current = nodes[ci];
        proof {
            // the cell picked is none of the closed ones
            assert forall|k: int| 0 <= k < closed_cells.len() implies closed_cells[k]
                != current.position by {
                assert(closed_at(nodes@, closed_cells[k]));
                let j = choose|j: int| #[trigger] found_at(nodes@, closed_cells[k], j) && nodes[j].closed;
                if closed_cells[k] == current.position {
                    lemma_same_cell(
                        nodes@,
                        current.position,
                        j,
                        ci as int,
                        from,
                        to,
                        walls@,
                        blocked_squares@,
                        loop_iterations as int,
                    );
                }
            }
        }
        proof {
            lemma_next_is_settled(
                nodes@,
                ci as int,
                from,
                to,
                walls@,
                blocked_squares@,
                loop_iterations as int,
            );
        }
        if loop_iterations >= EXPANSION_CAP {
            proof {
                let cells = closed_cells.push(current.position);
                assert forall|r: Seq<GridCoord>| #[trigger]
                    is_route(from, to, r, walls@, blocked_squares@) implies r.len() > SURE_REACH by {
                    if r.len() <= 10 {
                        assert forall|k: int| 0 <= k < cells.len() implies steps_apart(from, #[trigger] cells[k])
                            <= 10 by {
                            if k < closed_cells.len() {
                                assert(steps_apart(from, closed_cells[k]) <= r.len());
                            }
                        }
                        lemma_few_cells_near(from, cells);
                    }
                }
                assert forall|k: int| 0 <= k < cells.len() implies discovered(nodes@, #[trigger] cells[k]) by {
                    if k < closed_cells.len() {
                        assert(closed_at(nodes@, closed_cells[k]));
                        let j = choose|j: int| #[trigger]
                            found_at(nodes@, closed_cells[k], j) && nodes[j].closed;
                        assert(found_at(nodes@, cells[k], j));
                    } else {
                        assert(found_at(nodes@, cells[k], ci as int));
                    }
                }
                lemma_cap_reached(nodes@, cells, from, to, walls@, blocked_squares@, loop_iterations as int);
            }
            return None;
        }
        proof {
            if open_step(from, to, walls@, blocked_squares@) && loop_iterations == 1 {
                // the goal is one step away and has been found: nothing open comes before it
                assert(closure_ok(nodes@, 0, walls@, blocked_squares@));
                assert(near_hit(nodes@, to, 1));
                let j = choose|j: int| #[trigger] found_at(nodes@, to, j) && nodes[j].cost <= 1;
                lemma_cost_zero(nodes@, j, from, to, walls@, blocked_squares@, 1);
                lemma_floor_root_of_zero();
                assert(nodes[j].priority == 256);
                if current.position != to {
                    lemma_cost_zero(nodes@, ci as int, from, to, walls@, blocked_squares@, 1);
                    lemma_apart(current.position, to);
                    lemma_scaled_root_of_positive(current.position.spec_squared_distance_to(to));
                }
                lemma_same_cell(nodes@, to, j, ci as int, from, to, walls@, blocked_squares@, 1);
            }
        }
        loop_iterations += 1;
        if current.position == to {
            let path = trace_back(&nodes, ci);
            proof {
                lemma_trail(nodes@, ci as int, from, to, walls@, blocked_squares@, loop_iterations as int - 1);
                assert(is_shortest(from, to, path@, walls@, blocked_squares@));
                if open_step(from, to, walls@, blocked_squares@) {
                    assert(is_route(from, to, seq![to], walls@, blocked_squares@));
                    assert(path@.len() == 1);
                    assert(path@ =~= seq![to]);
                }
            }
            return Some(path);
        }
        let ghost before = nodes@;
        proof {
            lemma_cost_zero(nodes@, ci as int, from, to, walls@, blocked_squares@, loop_iterations as int - 1);
        }
        expand(&mut nodes, ci, to, walls, blocked_squares, Ghost(from), Ghost(loop_iterations as int));
        proof {
            let grown = closed_cells.push(current.position);
            assert forall|k: int| 0 <= k < grown.len() implies closed_at(nodes@, #[trigger] grown[k]) by {
                if k < closed_cells.len() {
                    assert(closed_at(before, closed_cells[k]));
                    let j = choose|j: int| #[trigger]
                        found_at(before, closed_cells[k], j) && before[j].closed;
                    assert(found_at(nodes@, grown[k], j) && nodes[j].closed);
                } else {
                    assert(found_at(nodes@, grown[k], ci as int) && nodes[ci as int].closed);
                }
            }
            assert forall|k: int, r: Seq<GridCoord>|
                0 <= k < grown.len() && #[trigger] is_route(from, to, r, walls@, blocked_squares@) implies steps_apart(
                from,
                #[trigger] grown[k],
            ) <= r.len() by {
                if k < closed_cells.len() {
                    assert(steps_apart(from, closed_cells[k]) <= r.len());
                }
            }
            closed_cells = grown;
            assert(grown.no_duplicates());
        }
    }
}

} // verus!
