//! A model of the host's routing table, and the proof that a routing plan
//! undoes itself on it.

use vstd::prelude::*;
use crate::net::{IpAddress, IpNetwork};
use crate::routing::{
    add_op, bypass_routes, cleanup_plan, delete_op, exclusion_route, ops, pin_route, restore_ops,
    route_view, setup_plan, Route, RouteCommand, RouteInfo, RouteOp,
};

verus! {

/// Where the table sends what matches a row: through `gateway`, if there is
/// one, on `interface`.
pub struct Hop {
    pub gateway: Option<IpAddress>,
    pub interface: Seq<char>,
}

/// The table after one change. Adding a route to a destination that has one
/// fails and removing a route that is not there fails; a failed change
/// leaves the table as it was.
pub open spec fn apply(table: Map<IpNetwork, Hop>, op: RouteOp) -> Map<IpNetwork, Hop> {
    match op {
        RouteOp::DeleteDefault => table.remove(IpNetwork::spec_default_v4()),
        RouteOp::AddDefault { gateway, interface } => add_row(
            table,
            IpNetwork::spec_default_v4(),
            Hop { gateway: Some(gateway), interface },
        ),
        RouteOp::AddRoute { destination, gateway, interface } => add_row(
            table,
            destination,
            Hop { gateway, interface },
        ),
        RouteOp::DeleteRoute { destination } => table.remove(destination),
    }
}

/// The table with a row for `destination`, unless it has one.
pub open spec fn add_row(table: Map<IpNetwork, Hop>, destination: IpNetwork, hop: Hop) -> Map<
    IpNetwork,
    Hop,
> {
    if table.dom().contains(destination) {
        table
    } else {
        table.insert(destination, hop)
    }
}

/// The table after the changes of `plan`, first to last.
pub open spec fn apply_all(table: Map<IpNetwork, Hop>, plan: Seq<RouteOp>) -> Map<IpNetwork, Hop>
    decreases plan.len(),
{
    if plan.len() == 0 {
        table
    } else {
        apply_all(apply(table, plan[0]), plan.skip(1))
    }
}

/// The default route that a capture finds in the table.
pub open spec fn captured_default(table: Map<IpNetwork, Hop>) -> Option<Route> {
    let default = IpNetwork::spec_default_v4();
    if table.dom().contains(default) {
        Some(
            Route {
                destination: default,
                gateway: table[default].gateway,
                interface: table[default].interface,
            },
        )
    } else {
        None
    }
}

/// A table on which setup followed by cleanup changes nothing: it has no
/// default route; or its default route has a gateway, and it has no route
/// yet to the SSH server or to an excluded network.
pub open spec fn reversible_on(
    table: Map<IpNetwork, Hop>,
    ssh_server: IpAddress,
    exclusions: Seq<IpNetwork>,
) -> bool {
    match captured_default(table) {
        Some(o) => {
            &&& o.gateway.is_some()
            &&& !table.dom().contains(IpNetwork::spec_host(ssh_server))
            &&& forall|i: int|
                0 <= i < exclusions.len() ==> !table.dom().contains(#[trigger] exclusions[i])
        },
        None => true,
    }
}

/// `t` has every row of `base` other than the default route.
spec fn keeps_rows(t: Map<IpNetwork, Hop>, base: Map<IpNetwork, Hop>) -> bool {
    forall|k: IpNetwork|
        #[trigger] base.dom().contains(k) && k != IpNetwork::spec_default_v4() ==> t.dom().contains(
            k,
        ) && t[k] == base[k]
}

/// `t` has every row of `base`.
spec fn has_rows(t: Map<IpNetwork, Hop>, base: Map<IpNetwork, Hop>) -> bool {
    forall|k: IpNetwork| #[trigger] base.dom().contains(k) ==> t.dom().contains(k) && t[k] == base[k]
}

/// No destination of `rs` has a row in `t`.
spec fn rows_gone(t: Map<IpNetwork, Hop>, rs: Seq<Route>) -> bool {
    forall|i: int| 0 <= i < rs.len() ==> !t.dom().contains((#[trigger] rs[i]).destination)
}

/// Every row of `t` is a row of `s`.
spec fn rows_of(t: Map<IpNetwork, Hop>, s: Map<IpNetwork, Hop>) -> bool {
    forall|k: IpNetwork| #[trigger] t.dom().contains(k) ==> s.dom().contains(k)
}

/// Every row of `t` is a row of `base` or leads to one of `extra`.
spec fn rows_within(t: Map<IpNetwork, Hop>, base: Map<IpNetwork, Hop>, extra: Set<IpNetwork>) -> bool {
    forall|k: IpNetwork| #[trigger] t.dom().contains(k) ==> base.dom().contains(k) || extra.contains(k)
}

/// The destinations of a list of routes.
spec fn destinations(rs: Seq<Route>) -> Set<IpNetwork> {
    Set::new(|k: IpNetwork| exists|i: int| 0 <= i < rs.len() && (#[trigger] rs[i]).destination == k)
}

/// Changes made one list after another are the changes of the joined list.
pub proof fn lemma_apply_all_concat(table: Map<IpNetwork, Hop>, a: Seq<RouteOp>, b: Seq<RouteOp>)
    ensures
        apply_all(table, a + b) == apply_all(apply_all(table, a), b),
    decreases a.len(),
{
    if a.len() == 0 {
        assert(a + b =~= b);
    } else {
        assert((a + b)[0] == a[0]);
        assert((a + b).skip(1) =~= a.skip(1) + b);
        lemma_apply_all_concat(apply(table, a[0]), a.skip(1), b);
    }
}

proof fn lemma_adds_keep(
    t: Map<IpNetwork, Hop>,
    base: Map<IpNetwork, Hop>,
    extra: Set<IpNetwork>,
    rs: Seq<Route>,
)
    requires
        keeps_rows(t, base),
        rows_within(t, base, extra),
        forall|i: int| 0 <= i < rs.len() ==> extra.contains((#[trigger] rs[i]).destination),
        forall|k: IpNetwork| #[trigger] extra.contains(k) ==> !base.dom().contains(k),
    ensures
        keeps_rows(apply_all(t, rs.map_values(|r: Route| add_op(r))), base),
        rows_within(apply_all(t, rs.map_values(|r: Route| add_op(r))), base, extra),
        t.dom().contains(IpNetwork::spec_default_v4()) ==> apply_all(
            t,
            rs.map_values(|r: Route| add_op(r)),
        ).dom().contains(IpNetwork::spec_default_v4()),
    decreases rs.len(),
{
    let plan = rs.map_values(|r: Route| add_op(r));
    if rs.len() > 0 {
        let next = apply(t, plan[0]);
        assert(plan[0] == add_op(rs[0]));
        assert(extra.contains(rs[0].destination));
        assert(plan.skip(1) =~= rs.skip(1).map_values(|r: Route| add_op(r)));
        assert forall|i: int| 0 <= i < rs.skip(1).len() implies extra.contains(
            (#[trigger] rs.skip(1)[i]).destination,
        ) by {
            assert(rs.skip(1)[i] == rs[i + 1]);
        }
        lemma_adds_keep(next, base, extra, rs.skip(1));
    }
}

proof fn lemma_deletes_clear(
    t: Map<IpNetwork, Hop>,
    base: Map<IpNetwork, Hop>,
    extra: Set<IpNetwork>,
    rs: Seq<Route>,
)
    requires
        has_rows(t, base),
        forall|i: int| 0 <= i < rs.len() ==> extra.contains((#[trigger] rs[i]).destination),
        forall|k: IpNetwork| #[trigger] extra.contains(k) ==> !base.dom().contains(k),
    ensures
        has_rows(apply_all(t, rs.map_values(|r: Route| delete_op(r))), base),
        rows_of(apply_all(t, rs.map_values(|r: Route| delete_op(r))), t),
        rows_gone(apply_all(t, rs.map_values(|r: Route| delete_op(r))), rs),
    decreases rs.len(),
{
    let plan = rs.map_values(|r: Route| delete_op(r));
    if rs.len() > 0 {
        let next = apply(t, plan[0]);
        let tail = rs.skip(1);
        assert(plan[0] == delete_op(rs[0]));
        assert(next == t.remove(rs[0].destination));
        assert(extra.contains(rs[0].destination));
        assert(plan.skip(1) =~= tail.map_values(|r: Route| delete_op(r)));
        assert forall|i: int| 0 <= i < tail.len() implies extra.contains(
            (#[trigger] tail[i]).destination,
        ) by {
            assert(tail[i] == rs[i + 1]);
        }
        assert(has_rows(next, base)) by {
            assert forall|k: IpNetwork| #[trigger] base.dom().contains(k) implies next.dom().contains(
                k,
            ) && next[k] == base[k] by {
                assert(!extra.contains(k));
            }
        }
        lemma_deletes_clear(next, base, extra, tail);
        let end = apply_all(next, plan.skip(1));
        assert(end == apply_all(t, plan));
        assert(rows_of(end, t)) by {
            assert forall|k: IpNetwork| #[trigger] end.dom().contains(k) implies t.dom().contains(
                k,
            ) by {
                assert(next.dom().contains(k));
            }
        }
        assert(rows_gone(end, rs)) by {
            assert forall|i: int| 0 <= i < rs.len() implies !end.dom().contains(
                (#[trigger] rs[i]).destination,
            ) by {
                if i > 0 {
                    assert(tail[i - 1] == rs[i]);
                } else {
                    if end.dom().contains(rs[0].destination) {
                        assert(next.dom().contains(rs[0].destination));
                    }
                }
            }
        }
    }
}

/// Setup followed by cleanup leaves the routing table as it was, on every
/// table that is reversible for the plan.
pub proof fn lemma_setup_then_cleanup_restores(
    table: Map<IpNetwork, Hop>,
    ssh_server: IpAddress,
    tunnel_peer: IpAddress,
    tunnel_interface: Seq<char>,
    exclusions: Seq<IpNetwork>,
)
    requires
        reversible_on(table, ssh_server, exclusions),
    ensures
        ({
            let original = captured_default(table);
            let after_setup = apply_all(
                table,
                setup_plan(original, ssh_server, tunnel_peer, tunnel_interface, exclusions),
            );
            apply_all(
                after_setup,
                cleanup_plan(original, bypass_routes(original, ssh_server, exclusions)),
            ) == table
        }),
{
    let default = IpNetwork::spec_default_v4();
    let original = captured_default(table);
    let setup = setup_plan(original, ssh_server, tunnel_peer, tunnel_interface, exclusions);
    let bypass = bypass_routes(original, ssh_server, exclusions);
    let cleanup = cleanup_plan(original, bypass);
    let replace = seq![
        RouteOp::DeleteDefault,
        RouteOp::AddDefault { gateway: tunnel_peer, interface: tunnel_interface },
    ];
    let tunnel_hop = Hop { gateway: Some(tunnel_peer), interface: tunnel_interface };
    assert(apply_all(table, Seq::<RouteOp>::empty()) == table);
    match original {
        None => {
            let t1 = apply(table, replace[0]);
            let t2 = apply(t1, replace[1]);
            assert(replace.skip(1).skip(1) =~= Seq::<RouteOp>::empty());
            assert(apply_all(t2, replace.skip(1).skip(1)) == t2);
            assert(apply_all(t1, replace.skip(1)) == t2);
            assert(apply_all(table, replace) == t2);
            assert(cleanup =~= seq![RouteOp::DeleteDefault]);
            assert(cleanup.skip(1) =~= Seq::<RouteOp>::empty());
            let t3 = apply(t2, cleanup[0]);
            assert(apply_all(t3, cleanup.skip(1)) == t3);
            assert(t3 =~= table);
        },
        Some(o) => {
            let gw = o.gateway.unwrap();
            let extra = destinations(bypass);
            let pin = pin_route(o, ssh_server);
            let excluded = exclusions.map_values(|net: IpNetwork| exclusion_route(o, net));
            assert(bypass =~= seq![pin] + excluded);
            assert forall|k: IpNetwork| extra.contains(k) implies !table.dom().contains(k) by {
                let i = choose|i: int| 0 <= i < bypass.len() && (#[trigger] bypass[i]).destination == k;
                if i > 0 {
                    assert(bypass[i] == exclusion_route(o, exclusions[i - 1]));
                }
            }
            assert forall|i: int| 0 <= i < bypass.len() implies extra.contains(
                (#[trigger] bypass[i]).destination,
            ) by {}
            assert forall|i: int| 0 <= i < excluded.len() implies extra.contains(
                (#[trigger] excluded[i]).destination,
            ) by {
                assert(bypass[i + 1] == excluded[i]);
            }
            // setup
            let head = seq![add_op(pin)] + replace;
            let adds = excluded.map_values(|r: Route| add_op(r));
            assert(adds =~= exclusions.map_values(
                |net: IpNetwork| add_op(exclusion_route(o, net)),
            ));
            assert(setup =~= head + adds);
            let t1 = apply(table, head[0]);
            let t2 = apply(t1, head[1]);
            let t3 = apply(t2, head[2]);
            assert(head.skip(1).skip(1).skip(1) =~= Seq::<RouteOp>::empty());
            assert(apply_all(t3, head.skip(1).skip(1).skip(1)) == t3);
            assert(head.skip(1).skip(1)[0] == head[2]);
            assert(apply_all(t2, head.skip(1).skip(1)) == t3);
            assert(head.skip(1)[0] == head[1]);
            assert(apply_all(t1, head.skip(1)) == t3);
            assert(apply_all(table, head) == t3);
            assert(bypass[0] == pin);
            assert(extra.contains(pin.destination));
            assert(pin.destination != default);
            assert(t3.dom().contains(default));
            assert(keeps_rows(t3, table));
            assert(rows_within(t3, table, extra));
            lemma_adds_keep(t3, table, extra, excluded);
            lemma_apply_all_concat(table, head, adds);
            let t4 = apply_all(table, setup);
            assert(t4 == apply_all(t3, adds));
            // cleanup
            let undo = seq![RouteOp::DeleteDefault] + restore_ops(original);
            let deletes = bypass.map_values(|r: Route| delete_op(r));
            assert(restore_ops(original) =~= seq![
                RouteOp::AddDefault { gateway: gw, interface: o.interface },
            ]);
            assert(cleanup =~= undo + deletes);
            let t5 = apply(t4, undo[0]);
            let t6 = apply(t5, undo[1]);
            assert(undo.skip(1).skip(1) =~= Seq::<RouteOp>::empty());
            assert(apply_all(t6, undo.skip(1).skip(1)) == t6);
            assert(undo.skip(1)[0] == undo[1]);
            assert(apply_all(t5, undo.skip(1)) == t6);
            assert(apply_all(t4, undo) == t6);
            assert(t6[default] == table[default]);
            assert(keeps_rows(t4, table));
            assert(has_rows(t6, table)) by {
                assert forall|k: IpNetwork| #[trigger] table.dom().contains(k) implies t6.dom().contains(
                    k,
                ) && t6[k] == table[k] by {
                    if k != default {
                        assert(t4.dom().contains(k) && t4[k] == table[k]);
                    }
                }
            }
            assert(rows_within(t4, table, extra));
            assert(rows_within(t6, table, extra)) by {
                assert forall|k: IpNetwork| #[trigger] t6.dom().contains(k) implies table.dom().contains(
                    k,
                ) || extra.contains(k) by {
                    if k != default {
                        assert(t4.dom().contains(k));
                    }
                }
            }
            lemma_deletes_clear(t6, table, extra, bypass);
            lemma_apply_all_concat(t4, undo, deletes);
            let end = apply_all(t4, cleanup);
            assert(end == apply_all(t6, deletes));
            assert forall|k: IpNetwork| #[trigger] end.dom().contains(k) implies table.dom().contains(
                k,
            ) by {
                assert(t6.dom().contains(k));
                if extra.contains(k) {
                    let i = choose|i: int|
                        0 <= i < bypass.len() && (#[trigger] bypass[i]).destination == k;
                    assert(!end.dom().contains(bypass[i].destination));
                }
            }
            assert(end =~= table);
        },
    }
}

/// A routing table to try plans on: rows with their destinations, no two
/// rows to one destination.
pub struct RouteTable {
    rows: Vec<RouteInfo>,
}

/// Whether row `i` of `rows` leads to `destination`.
spec fn row_to(rows: Seq<RouteInfo>, destination: IpNetwork, i: int) -> bool {
    0 <= i < rows.len() && rows[i].destination == destination
}

/// No two rows lead to one destination.
spec fn distinct_rows(rows: Seq<RouteInfo>) -> bool {
    forall|i: int, j: int|
        0 <= i < rows.len() && 0 <= j < rows.len() && i != j ==> (#[trigger] rows[i]).destination
            != (#[trigger] rows[j]).destination
}

/// The hop of a row.
spec fn hop_of(row: RouteInfo) -> Hop {
    Hop { gateway: row.gateway, interface: row.interface@ }
}

/// The table that the rows make up.
spec fn table_of(rows: Seq<RouteInfo>) -> Map<IpNetwork, Hop> {
    Map::new(
        |k: IpNetwork| exists|i: int| row_to(rows, k, i),
        |k: IpNetwork| hop_of(rows[choose|i: int| row_to(rows, k, i)]),
    )
}

/// A row that leads to `k` decides what the table holds for `k`.
proof fn lemma_row_decides(rows: Seq<RouteInfo>, k: IpNetwork, i: int)
    requires
        distinct_rows(rows),
        row_to(rows, k, i),
    ensures
        table_of(rows).dom().contains(k),
        table_of(rows)[k] == hop_of(rows[i]),
{
    let j = choose|j: int| row_to(rows, k, j);
    assert(row_to(rows, k, j));
    if i != j {
        assert(rows[i].destination != rows[j].destination);
    }
}

/// A table with one more row, to a destination that had none, is the old
/// table with that row put in.
proof fn lemma_table_push(rows: Seq<RouteInfo>, row: RouteInfo)
    requires
        distinct_rows(rows),
        forall|i: int| 0 <= i < rows.len() ==> (#[trigger] rows[i]).destination != row.destination,
    ensures
        distinct_rows(rows.push(row)),
        table_of(rows.push(row)) == table_of(rows).insert(row.destination, hop_of(row)),
{
    let more = rows.push(row);
    assert(distinct_rows(more));
    let a = table_of(more);
    let b = table_of(rows).insert(row.destination, hop_of(row));
    assert forall|k: IpNetwork| a.dom().contains(k) <==> b.dom().contains(k) by {
        if a.dom().contains(k) {
            let i = choose|i: int| row_to(more, k, i);
            if i < rows.len() {
                assert(row_to(rows, k, i));
            }
        }
        if b.dom().contains(k) {
            if k == row.destination {
                assert(row_to(more, k, rows.len() as int));
            } else {
                let i = choose|i: int| row_to(rows, k, i);
                assert(row_to(more, k, i));
            }
        }
    }
    assert forall|k: IpNetwork| a.dom().contains(k) implies a[k] == b[k] by {
        let i = choose|i: int| row_to(more, k, i);
        lemma_row_decides(more, k, i);
        if i < rows.len() {
            assert(row_to(rows, k, i));
            lemma_row_decides(rows, k, i);
        }
    }
    assert(a =~= b);
}

/// A table without one of its rows is the old table with that row's
/// destination taken out.
proof fn lemma_table_remove(rows: Seq<RouteInfo>, at: int)
    requires
        distinct_rows(rows),
        0 <= at < rows.len(),
    ensures
        distinct_rows(rows.remove(at)),
        table_of(rows.remove(at)) == table_of(rows).remove(rows[at].destination),
{
    let fewer = rows.remove(at);
    let gone = rows[at].destination;
    assert forall|i: int, j: int|
        0 <= i < fewer.len() && 0 <= j < fewer.len() && i != j implies (#[trigger] fewer[i]).destination
        != (#[trigger] fewer[j]).destination by {
        let i0 = if i < at {
            i
        } else {
            i + 1
        };
        let j0 = if j < at {
            j
        } else {
            j + 1
        };
        assert(fewer[i] == rows[i0]);
        assert(fewer[j] == rows[j0]);
    }
    let a = table_of(fewer);
    let b = table_of(rows).remove(gone);
    assert forall|k: IpNetwork| a.dom().contains(k) <==> b.dom().contains(k) by {
        if a.dom().contains(k) {
            let i = choose|i: int| row_to(fewer, k, i);
            let i0 = if i < at {
                i
            } else {
                i + 1
            };
            assert(fewer[i] == rows[i0]);
            assert(row_to(rows, k, i0));
            assert(rows[i0].destination != rows[at].destination);
        }
        if b.dom().contains(k) {
            let i0 = choose|i: int| row_to(rows, k, i);
            assert(i0 != at);
            let i = if i0 < at {
                i0
            } else {
                i0 - 1
            };
            assert(fewer[i] == rows[i0]);
            assert(row_to(fewer, k, i));
        }
    }
    assert forall|k: IpNetwork| a.dom().contains(k) implies a[k] == b[k] by {
        let i = choose|i: int| row_to(fewer, k, i);
        let i0 = if i < at {
            i
        } else {
            i + 1
        };
        assert(fewer[i] == rows[i0]);
        lemma_row_decides(fewer, k, i);
        assert(row_to(rows, k, i0));
        lemma_row_decides(rows, k, i0);
    }
    assert(a =~= b);
}

/// A table that has no row to `k` holds nothing for `k`.
proof fn lemma_no_row(rows: Seq<RouteInfo>, k: IpNetwork)
    requires
        forall|i: int| 0 <= i < rows.len() ==> (#[trigger] rows[i]).destination != k,
    ensures
        !table_of(rows).dom().contains(k),
{
    if table_of(rows).dom().contains(k) {
        let i = choose|i: int| row_to(rows, k, i);
        assert(rows[i].destination != k);
    }
}

impl View for RouteTable {
    type V = Map<IpNetwork, Hop>;

    closed spec fn view(&self) -> Map<IpNetwork, Hop> {
        table_of(self.rows@)
    }
}

impl RouteTable {
    /// No two rows of the table lead to one destination.
    pub closed spec fn wf(&self) -> bool {
        distinct_rows(self.rows@)
    }

    /// A table without rows.
    pub fn new() -> (table: RouteTable)
        ensures
            table.wf(),
            table@ == Map::<IpNetwork, Hop>::empty(),
    {
        let table = RouteTable { rows: Vec::new() };
        assert(table@ =~= Map::<IpNetwork, Hop>::empty()) by {
            assert forall|k: IpNetwork| !table@.dom().contains(k) by {
                lemma_no_row(table.rows@, k);
            }
        }
        table
    }

    /// Where the row to `destination` stands, if there is one.
    fn position(&self, destination: IpNetwork) -> (at: Option<usize>)
        requires
            self.wf(),
        ensures
            match at {
                Some(i) => row_to(self.rows@, destination, i as int) && self@.dom().contains(
                    destination,
                ) && self@[destination] == hop_of(self.rows@[i as int]),
                None => !self@.dom().contains(destination) && forall|i: int|
                    0 <= i < self.rows@.len() ==> (#[trigger] self.rows@[i]).destination
                        != destination,
            },
    {
        let mut i: usize = 0;
        while i < self.rows.len()
            invariant
                i <= self.rows@.len(),
                self.wf(),
                forall|j: int| 0 <= j < i ==> (#[trigger] self.rows@[j]).destination != destination,
            decreases self.rows@.len() - i,
        {
            if self.rows[i].destination == destination {
                proof {
                    lemma_row_decides(self.rows@, destination, i as int);
                }
                return Some(i);
            }
            i = i + 1;
        }
        proof {
            lemma_no_row(self.rows@, destination);
        }
        None
    }

    /// The row to `destination`, if there is one.
    pub fn lookup(&self, destination: IpNetwork) -> (row: Option<RouteInfo>)
        requires
            self.wf(),
        ensures
            match row {
                Some(r) => self@.dom().contains(destination) && r@ == (Route {
                    destination,
                    gateway: self@[destination].gateway,
                    interface: self@[destination].interface,
                }),
                None => !self@.dom().contains(destination),
            },
    {
        match self.position(destination) {
            Some(i) => Some(self.rows[i].clone()),
            None => None,
        }
    }

    /// The default route that a capture finds.
    pub fn default_route(&self) -> (route: Option<RouteInfo>)
        requires
            self.wf(),
        ensures
            route_view(route) == captured_default(self@),
    {
        self.lookup(IpNetwork::default_v4())
    }

    /// Puts a row into the table, unless there is one to its destination.
    /// Returns whether the row went in.
    pub fn add(&mut self, row: RouteInfo) -> (added: bool)
        requires
            old(self).wf(),
        ensures
            final(self).wf(),
            added == !old(self)@.dom().contains(row.destination),
            final(self)@ == add_row(old(self)@, row.destination, hop_of_route(row@)),
    {
        match self.position(row.destination) {
            Some(_) => false,
            None => {
                proof {
                    lemma_table_push(self.rows@, row);
                }
                self.rows.push(row);
                true
            },
        }
    }

    /// Takes the row to `destination` out of the table. Returns whether
    /// there was one.
    pub fn remove(&mut self, destination: IpNetwork) -> (removed: bool)
        requires
            old(self).wf(),
        ensures
            final(self).wf(),
            removed == old(self)@.dom().contains(destination),
            final(self)@ == old(self)@.remove(destination),
    {
        match self.position(destination) {
            Some(i) => {
                proof {
                    lemma_table_remove(self.rows@, i as int);
                }
                let _row = self.rows.remove(i);
                true
            },
            None => {
                assert(self@.remove(destination) =~= self@);
                false
            },
        }
    }

    /// Makes one change to the table. A change that fails leaves the table
    /// as it was.
    pub fn apply(&mut self, command: &RouteCommand)
        requires
            old(self).wf(),
        ensures
            final(self).wf(),
            final(self)@ == apply(old(self)@, command@),
    {
        match command {
            RouteCommand::DeleteDefault => {
                let _removed = self.remove(IpNetwork::default_v4());
            },
            RouteCommand::AddDefault { gateway, interface } => {
                let _added = self.add(
                    RouteInfo {
                        destination: IpNetwork::default_v4(),
                        gateway: Some(*gateway),
                        interface: interface.clone(),
                    },
                );
            },
            RouteCommand::AddRoute { destination, gateway, interface } => {
                let _added = self.add(
                    RouteInfo {
                        destination: *destination,
                        gateway: *gateway,
                        interface: interface.clone(),
                    },
                );
            },
            RouteCommand::DeleteRoute { destination } => {
                let _removed = self.remove(*destination);
            },
        }
    }

    /// Makes the changes of a plan, first to last.
    pub fn apply_all(&mut self, plan: &Vec<RouteCommand>)
        requires
            old(self).wf(),
        ensures
            final(self).wf(),
            final(self)@ == apply_all(old(self)@, ops(plan@)),
    {
        let ghost start = self@;
        let ghost all = ops(plan@);
        let mut i: usize = 0;
        assert(all.take(0) =~= Seq::<RouteOp>::empty());
        while i < plan.len()
            invariant
                i <= plan@.len(),
                self.wf(),
                all == ops(plan@),
                self@ == apply_all(start, all.take(i as int)),
            decreases plan@.len() - i,
        {
            let ghost before = self@;
            self.apply(&plan[i]);
            proof {
                let done = all.take(i as int);
                let op = all[i as int];
                let one = seq![op];
                assert(op == plan@[i as int]@);
                assert(all.take(i + 1) =~= done + one);
                lemma_apply_all_concat(start, done, one);
                assert(one[0] == op);
                assert(one.skip(1) =~= Seq::<RouteOp>::empty());
                assert(apply_all(apply(before, op), one.skip(1)) == apply(before, op));
                assert(apply_all(before, one) == apply(before, op));
            }
            i = i + 1;
        }
        assert(all.take(i as int) =~= all);
    }

    /// Whether two tables hold the same rows, in whatever order.
    pub fn same_routes(&self, other: &RouteTable) -> (same: bool)
        requires
            self.wf(),
            other.wf(),
        ensures
            same == (self@ == other@),
    {
        let forth = self.within(other);
        let back = other.within(self);
        if forth && back {
            assert(self@ =~= other@);
        }
        forth && back
    }

    /// Whether every row of this table is a row of `other`.
    fn within(&self, other: &RouteTable) -> (within: bool)
        requires
            self.wf(),
            other.wf(),
        ensures
            within == (forall|k: IpNetwork| #[trigger]
                self@.dom().contains(k) ==> other@.dom().contains(k) && other@[k] == self@[k]),
    {
        let mut i: usize = 0;
        while i < self.rows.len()
            invariant
                i <= self.rows@.len(),
                self.wf(),
                other.wf(),
                forall|j: int|
                    0 <= j < i ==> other@.dom().contains((#[trigger] self.rows@[j]).destination)
                        && other@[self.rows@[j].destination] == hop_of(self.rows@[j]),
            decreases self.rows@.len() - i,
        {
            let row = &self.rows[i];
            proof {
                lemma_row_decides(self.rows@, row.destination, i as int);
            }
            let found = match other.position(row.destination) {
                Some(at) => {
                    let there = &other.rows[at];
                    there.gateway == row.gateway && there.interface == row.interface
                },
                None => false,
            };
            if !found {
                assert(self@.dom().contains(row.destination));
                return false;
            }
            i = i + 1;
        }
        assert forall|k: IpNetwork| #[trigger] self@.dom().contains(k) implies other@.dom().contains(
            k,
        ) && other@[k] == self@[k] by {
            let j = choose|j: int| row_to(self.rows@, k, j);
            lemma_row_decides(self.rows@, k, j);
        }
        true
    }
}

/// The hop of a route.
pub open spec fn hop_of_route(route: Route) -> Hop {
    Hop { gateway: route.gateway, interface: route.interface }
}

} // verus!
