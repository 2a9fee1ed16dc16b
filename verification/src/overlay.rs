//! The supply network, blockades and construction on the map.
use crate::arithmetic::{larger, product_of, quotient_of, sum_of};
use crate::client::Ui;
use crate::map_mode::MapMode;
use crate::palette::{clamped, rgb, Rgb, Unit01};
use crate::quantity::{zero, Quantity};
use crate::types::{RegionId, SeaZoneId};
use crate::world::{LinkKind, Region, World};
use vstd::prelude::*;

verus! {

/// A link that carries all it can.
pub open spec fn chokepoint_rgb() -> Rgb {
    rgb(100, 8, 5)
}

/// A link that supply actually takes.
pub open spec fn active_route_rgb() -> Rgb {
    rgb(58, 52, 36)
}

/// A link of whose capacity next to nothing is in use.
pub open spec fn relay_low_rgb() -> Rgb {
    rgb(20, 30, 20)
}

/// A link of whose capacity everything is in use.
pub open spec fn relay_full_rgb() -> Rgb {
    rgb(35, 85, 35)
}

/// A link that carries nothing.
pub open spec fn relay_dead_rgb() -> Rgb {
    rgb(30, 30, 33)
}

/// A link that has been severed.
pub open spec fn line_cut_rgb() -> Rgb {
    rgb(80, 35, 10)
}

/// A region without supply.
pub open spec fn ring_starved_rgb() -> Rgb {
    rgb(85, 20, 45)
}

/// A region with all the supply it can take.
pub open spec fn ring_full_rgb() -> Rgb {
    rgb(20, 85, 55)
}

/// A region whose supply is fought over.
pub open spec fn ring_contested_rgb() -> Rgb {
    rgb(65, 25, 80)
}

/// How a kind of link is drawn: its width, its colour (`None` if it is not drawn at all), and whether
/// it is dashed.
pub open spec fn style_of(kind: LinkKind) -> (u8, Option<Rgb>, bool) {
    match kind {
        LinkKind::Rail => (5, Some(rgb(85, 85, 88)), false),
        LinkKind::Road => (2, Some(rgb(60, 60, 62)), false),
        LinkKind::Tunnel => (3, Some(rgb(70, 55, 35)), true),
        LinkKind::Strait => (3, Some(rgb(35, 55, 85)), true),
        LinkKind::Sea => (1, None, true),
    }
}

/// How a kind of link is drawn.
pub fn link_style(kind: LinkKind) -> (style: (u8, Option<Rgb>, bool))
    ensures
        style == style_of(kind),
{
    match kind {
        LinkKind::Rail => (5, Some(Rgb { r: 85, g: 85, b: 88 }), false),
        LinkKind::Road => (2, Some(Rgb { r: 60, g: 60, b: 62 }), false),
        LinkKind::Tunnel => (3, Some(Rgb { r: 70, g: 55, b: 35 }), true),
        LinkKind::Strait => (3, Some(Rgb { r: 35, g: 55, b: 85 }), true),
        LinkKind::Sea => (1, None, true),
    }
}

/// How a region gets its supply.
#[derive(Clone, Copy, Debug, PartialEq, Eq, Structural)]
pub struct Route {
    pub region: RegionId,
    pub contested: bool,
    /// The supply that can arrive.
    pub cap: Quantity,
    /// The region that passes the supply on, if it is passed on.
    pub relay: Option<RegionId>,
}

/// What a link carries in one direction.
#[derive(Clone, Copy, Debug, PartialEq, Eq, Structural)]
pub struct Flow {
    pub from: RegionId,
    pub to: RegionId,
    pub saturated: bool,
    pub capacity: Quantity,
    /// How much of the capacity is in use, as a share.
    pub ratio: Quantity,
}

/// The flow from one region to another; the last one counts.
pub open spec fn flow_of(flows: Seq<Flow>, from: RegionId, to: RegionId) -> Option<Flow>
    decreases flows.len(),
{
    if flows.len() == 0 {
        None
    } else if flows.last().from == from && flows.last().to == to {
        Some(flows.last())
    } else {
        flow_of(flows.drop_last(), from, to)
    }
}

fn flow_between(flows: &Vec<Flow>, from: RegionId, to: RegionId) -> (flow: Option<Flow>)
    ensures
        flow == flow_of(flows@, from, to),
{
    let mut i: usize = flows.len();
    assert(flows@.take(i as int) =~= flows@);
    while i > 0
        invariant
            i <= flows.len(),
            flow_of(flows@, from, to) == flow_of(flows@.take(i as int), from, to),
        decreases i,
    {
        assert(flows@.take(i as int).drop_last() =~= flows@.take(i - 1));
        let flow = flows[i - 1];
        if flow.from == from && flow.to == to {
            return Some(flow);
        }
        i -= 1;
    }
    None
}

/// The route of a region; the last one counts.
pub open spec fn route_of(routes: Seq<Route>, region: RegionId) -> Option<Route>
    decreases routes.len(),
{
    if routes.len() == 0 {
        None
    } else if routes.last().region == region {
        Some(routes.last())
    } else {
        route_of(routes.drop_last(), region)
    }
}

fn route_to(routes: &Vec<Route>, region: RegionId) -> (route: Option<Route>)
    ensures
        route == route_of(routes@, region),
{
    let mut i: usize = routes.len();
    assert(routes@.take(i as int) =~= routes@);
    while i > 0
        invariant
            i <= routes.len(),
            route_of(routes@, region) == route_of(routes@.take(i as int), region),
        decreases i,
    {
        assert(routes@.take(i as int).drop_last() =~= routes@.take(i - 1));
        let route = routes[i - 1];
        if route.region == region {
            return Some(route);
        }
        i -= 1;
    }
    None
}

/// A colour, or one on the way from one colour to another.
#[derive(Clone, Copy, Debug, PartialEq, Eq, Structural)]
pub enum Paint {
    /// Not drawn.
    Nothing,
    Solid(Rgb),
    Between { from: Rgb, to: Rgb, share: Unit01 },
}

/// A colour, or one on the way from one colour to another.
pub ghost enum PaintView {
    Nothing,
    Solid(Rgb),
    Between { from: Rgb, to: Rgb, share: Quantity },
}

impl View for Paint {
    type V = PaintView;

    open spec fn view(&self) -> PaintView {
        match *self {
            Paint::Nothing => PaintView::Nothing,
            Paint::Solid(c) => PaintView::Solid(c),
            Paint::Between { from, to, share } => PaintView::Between { from, to, share: share@ },
        }
    }
}

/// A part of something, as a share of it; nothing of what is not above 0.
pub open spec fn share_of(part: Quantity, all: Quantity) -> Quantity {
    clamped(
        if all.positive() {
            quotient_of(part, all)
        } else {
            zero()
        },
    )
}

fn share(part: Quantity, all: Quantity) -> (share: Unit01)
    ensures
        share@ == share_of(part, all),
{
    Unit01::new(
        if all.is_positive() {
            part.over(all)
        } else {
            Quantity { bits: 0 }
        },
    )
}

/// The ring around a region: fought over, or somewhere between starved and full.
pub open spec fn ring_paint(route: Route, throughput: Quantity) -> PaintView {
    if route.contested {
        PaintView::Solid(ring_contested_rgb())
    } else {
        PaintView::Between { from: ring_starved_rgb(), to: ring_full_rgb(), share: share_of(route.cap, throughput) }
    }
}

/// The ring around a region.
pub fn ring_color(route: &Route, throughput: Quantity) -> (paint: Paint)
    ensures
        paint@ == ring_paint(*route, throughput),
{
    if route.contested {
        Paint::Solid(Rgb { r: 65, g: 25, b: 80 })
    } else {
        Paint::Between {
            from: Rgb { r: 85, g: 20, b: 45 },
            to: Rgb { r: 20, g: 85, b: 55 },
            share: share(route.cap, throughput),
        }
    }
}

/// The ring around a region: `None` where it is hidden; it keeps its colour where the region has no
/// route.
pub open spec fn ring_shown(mode: MapMode, world: World, routes: Seq<Route>, region: RegionId) -> Option<Option<PaintView>> {
    if mode != MapMode::Supply {
        None
    } else {
        Some(
            match route_of(routes, region) {
                Some(route) => Some(ring_paint(route, world.region_at(region).throughput)),
                None => None,
            },
        )
    }
}

/// The ring around a region.
pub fn supply_ring(mode: MapMode, world: &World, routes: &Vec<Route>, region: RegionId) -> (ring: Option<Option<Paint>>)
    requires
        world.has_region(region),
    ensures
        match ring {
            None => ring_shown(mode, *world, routes@, region) is None,
            Some(None) => ring_shown(mode, *world, routes@, region) == Some(None::<PaintView>),
            Some(Some(paint)) => ring_shown(mode, *world, routes@, region) == Some(Some(paint@)),
        },
{
    if mode != MapMode::Supply {
        return None;
    }
    match route_to(routes, region) {
        Some(route) => Some(Some(ring_color(&route, world.region(region).throughput))),
        None => Some(None),
    }
}

/// Where a link is drawn among the others.
#[derive(Clone, Copy, Debug, PartialEq, Eq, Structural)]
pub enum Depth {
    Ordinary,
    Highlight,
    Chokepoint,
}

/// How a link is drawn: its paint, how far up, whether widened, and which markers it gets.
pub struct LinkLook {
    pub paint: Paint,
    pub depth: Depth,
    pub widened: bool,
    pub chokepoint: bool,
    pub cut: bool,
}

/// How a link is drawn.
pub ghost struct LinkLookView {
    pub paint: PaintView,
    pub depth: Depth,
    pub widened: bool,
    pub chokepoint: bool,
    pub cut: bool,
}

impl View for LinkLook {
    type V = LinkLookView;

    open spec fn view(&self) -> LinkLookView {
        LinkLookView {
            paint: self.paint@,
            depth: self.depth,
            widened: self.widened,
            chokepoint: self.chokepoint,
            cut: self.cut,
        }
    }
}

/// A capacity of at most this (a thousandth) counts as none.
pub open spec fn cut_epsilon() -> Quantity {
    Quantity { bits: 0x3a83_126f }
}

/// A link as it is drawn outside the supply mode and between regions of different owners.
pub open spec fn ordinary_look(kind: LinkKind) -> LinkLookView {
    LinkLookView {
        paint: match style_of(kind).1 {
            Some(c) => PaintView::Solid(c),
            None => PaintView::Nothing,
        },
        depth: Depth::Ordinary,
        widened: false,
        chokepoint: false,
        cut: false,
    }
}

/// Whether a flow carries all it can.
pub open spec fn is_saturated(flow: Option<Flow>) -> bool {
    flow matches Some(f) && f.saturated
}

/// Whether a flow has no capacity left.
pub open spec fn is_cut(flow: Option<Flow>) -> bool {
    flow matches Some(f) && f.capacity.at_most(cut_epsilon())
}

/// Whether supply for one region is passed on by another.
pub open spec fn relays(routes: Seq<Route>, region: RegionId, relay: RegionId) -> bool {
    route_of(routes, region) matches Some(route) && route.relay == Some(relay)
}

/// How much of a flow's capacity is in use; 0 if there is none.
pub open spec fn usage(flow: Option<Flow>) -> Quantity {
    match flow {
        Some(f) => f.ratio,
        None => zero(),
    }
}

/// A link between regions of one owner in the supply mode. The most pressing thing to say wins: that
/// it is a chokepoint, that it is cut, that supply takes it, that nothing connects the two, how much
/// it is used.
pub open spec fn supply_look(ab: Option<Flow>, ba: Option<Flow>, active: bool) -> LinkLookView {
    let chokepoint = is_saturated(ab) || is_saturated(ba);
    let cut = is_cut(ab) || is_cut(ba);
    let (paint, depth) = if chokepoint {
        (PaintView::Solid(chokepoint_rgb()), Depth::Chokepoint)
    } else if cut {
        (PaintView::Solid(line_cut_rgb()), Depth::Highlight)
    } else if active {
        (PaintView::Solid(active_route_rgb()), Depth::Highlight)
    } else if ab is None && ba is None {
        (PaintView::Solid(relay_dead_rgb()), Depth::Ordinary)
    } else {
        (
            PaintView::Between {
                from: relay_low_rgb(),
                to: relay_full_rgb(),
                share: clamped(larger(usage(ab), usage(ba))),
            },
            Depth::Ordinary,
        )
    };
    LinkLookView { paint, depth, widened: chokepoint, chokepoint, cut }
}

/// How a link between two regions is drawn.
pub open spec fn link_look_of(
    mode: MapMode,
    world: World,
    routes: Seq<Route>,
    flows: Seq<Flow>,
    a: RegionId,
    b: RegionId,
    kind: LinkKind,
) -> LinkLookView {
    if mode != MapMode::Supply || world.region_at(a).owner != world.region_at(b).owner {
        ordinary_look(kind)
    } else {
        supply_look(flow_of(flows, a, b), flow_of(flows, b, a), relays(routes, b, a) || relays(routes, a, b))
    }
}

fn relays_through(routes: &Vec<Route>, region: RegionId, relay: RegionId) -> (found: bool)
    ensures
        found == relays(routes@, region, relay),
{
    match route_to(routes, region) {
        Some(route) => match route.relay {
            Some(r) => r == relay,
            None => false,
        },
        None => false,
    }
}

fn ordinary(kind: LinkKind) -> (look: LinkLook)
    ensures
        look@ == ordinary_look(kind),
{
    let (_, color, _) = link_style(kind);
    let paint = match color {
        Some(c) => Paint::Solid(c),
        None => Paint::Nothing,
    };
    LinkLook { paint, depth: Depth::Ordinary, widened: false, chokepoint: false, cut: false }
}

fn supply_link(ab: Option<Flow>, ba: Option<Flow>, active: bool) -> (look: LinkLook)
    ensures
        look@ == supply_look(ab, ba, active),
{
    let epsilon = Quantity { bits: 0x3a83_126f };
    let (saturated_ab, cut_ab, usage_ab) = match ab {
        Some(f) => (f.saturated, f.capacity.is_at_most(epsilon), f.ratio),
        None => (false, false, Quantity { bits: 0 }),
    };
    let (saturated_ba, cut_ba, usage_ba) = match ba {
        Some(f) => (f.saturated, f.capacity.is_at_most(epsilon), f.ratio),
        None => (false, false, Quantity { bits: 0 }),
    };
    let chokepoint = saturated_ab || saturated_ba;
    let cut = cut_ab || cut_ba;
    let (paint, depth) = if chokepoint {
        (Paint::Solid(Rgb { r: 100, g: 8, b: 5 }), Depth::Chokepoint)
    } else if cut {
        (Paint::Solid(Rgb { r: 80, g: 35, b: 10 }), Depth::Highlight)
    } else if active {
        (Paint::Solid(Rgb { r: 58, g: 52, b: 36 }), Depth::Highlight)
    } else if ab.is_none() && ba.is_none() {
        (Paint::Solid(Rgb { r: 30, g: 30, b: 33 }), Depth::Ordinary)
    } else {
        let more = if usage_ab.is_nan() || usage_ab.is_less(usage_ba) {
            usage_ba
        } else {
            usage_ab
        };
        (
            Paint::Between {
                from: Rgb { r: 20, g: 30, b: 20 },
                to: Rgb { r: 35, g: 85, b: 35 },
                share: Unit01::new(more),
            },
            Depth::Ordinary,
        )
    };
    LinkLook { paint, depth, widened: chokepoint, chokepoint, cut }
}

/// How a link between two regions is drawn.
pub fn link_look(
    mode: MapMode,
    world: &World,
    routes: &Vec<Route>,
    flows: &Vec<Flow>,
    a: RegionId,
    b: RegionId,
    kind: LinkKind,
) -> (look: LinkLook)
    requires
        world.has_region(a),
        world.has_region(b),
    ensures
        look@ == link_look_of(mode, *world, routes@, flows@, a, b, kind),
{
    if mode != MapMode::Supply || world.region(a).owner != world.region(b).owner {
        return ordinary(kind);
    }
    let active = relays_through(routes, b, a) || relays_through(routes, a, b);
    supply_link(flow_between(flows, a, b), flow_between(flows, b, a), active)
}

/// A link is marked and placed the same from both of its ends.
pub proof fn links_are_marked_the_same_from_both_ends(
    mode: MapMode,
    world: World,
    routes: Seq<Route>,
    flows: Seq<Flow>,
    a: RegionId,
    b: RegionId,
    kind: LinkKind,
)
    ensures
        ({
            let x = link_look_of(mode, world, routes, flows, a, b, kind);
            let y = link_look_of(mode, world, routes, flows, b, a, kind);
            &&& x.depth == y.depth
            &&& x.widened == y.widened
            &&& x.chokepoint == y.chokepoint
            &&& x.cut == y.cut
        }),
{
}

/// The markers of chokepoints and cut links show in the supply mode only, and only between regions of
/// one owner.
pub proof fn markers_belong_to_one_owners_network(
    mode: MapMode,
    world: World,
    routes: Seq<Route>,
    flows: Seq<Flow>,
    a: RegionId,
    b: RegionId,
    kind: LinkKind,
)
    ensures
        ({
            let look = link_look_of(mode, world, routes, flows, a, b, kind);
            look.chokepoint || look.cut ==> mode == MapMode::Supply && world.region_at(a).owner == world.region_at(b).owner
        }),
{
}

/// How strongly the mark of construction work shows at a region, if there is any: the stronger, the
/// further the work has come.
pub open spec fn construction_strength(region: Region) -> Option<Quantity> {
    match region.construction {
        Some(c) => Some(
            sum_of(
                Quantity { bits: 0x3eb3_3333 },
                product_of(Quantity { bits: 0x3f0c_cccd }, share_of(c.invested, c.required)),
            ),
        ),
        None => None,
    }
}

/// How strongly the mark of construction work shows at a region, if there is any.
pub fn construction_marker(region: &Region) -> (strength: Option<Quantity>)
    ensures
        strength == construction_strength(*region),
{
    match region.construction {
        Some(c) => {
            let progress = share(c.invested, c.required).get();
            Some((Quantity { bits: 0x3eb3_3333 }).plus((Quantity { bits: 0x3f0c_cccd }).times(progress)))
        },
        None => None,
    }
}

/// A blockaded port, and the sea zones that cause it.
pub struct PortBlockade {
    pub region: RegionId,
    pub causes: Vec<SeaZoneId>,
}

/// What was last drawn of the blockades: the blockades and the selection.
pub struct BlockadeState {
    pub blockades: Vec<PortBlockade>,
    pub selected_region: Option<RegionId>,
    pub selected_sea_zone: Option<SeaZoneId>,
}

/// Whether two lists of blockades are the same.
pub open spec fn same_blockades(a: Seq<PortBlockade>, b: Seq<PortBlockade>) -> bool {
    &&& a.len() == b.len()
    &&& forall|i: int| 0 <= i < a.len() ==> (#[trigger] a[i]).region == b[i].region && a[i].causes@ == b[i].causes@
}

fn same_zones(a: &Vec<SeaZoneId>, b: &Vec<SeaZoneId>) -> (same: bool)
    ensures
        same == (a@ == b@),
{
    if a.len() != b.len() {
        return false;
    }
    let mut i: usize = 0;
    while i < a.len()
        invariant
            i <= a.len(),
            a.len() == b.len(),
            forall|k: int| 0 <= k < i ==> a@[k] == b@[k],
        decreases a.len() - i,
    {
        if a[i] != b[i] {
            assert(a@[i as int] != b@[i as int]);
            return false;
        }
        i += 1;
    }
    assert(a@ =~= b@);
    true
}

fn blockades_equal(a: &Vec<PortBlockade>, b: &Vec<PortBlockade>) -> (same: bool)
    ensures
        same == same_blockades(a@, b@),
{
    if a.len() != b.len() {
        return false;
    }
    let mut i: usize = 0;
    while i < a.len()
        invariant
            i <= a.len(),
            a.len() == b.len(),
            forall|k: int| 0 <= k < i ==> (#[trigger] a@[k]).region == b@[k].region && a@[k].causes@ == b@[k].causes@,
        decreases a.len() - i,
    {
        if a[i].region != b[i].region || !same_zones(&a[i].causes, &b[i].causes) {
            assert(!(a@[i as int].region == b@[i as int].region && a@[i as int].causes@ == b@[i as int].causes@));
            return false;
        }
        i += 1;
    }
    true
}

/// Whether what was last drawn of the blockades is still right: neither the blockades nor the
/// selection changed.
pub open spec fn still_drawn(last: Option<BlockadeState>, blockades: Seq<PortBlockade>, ui: Ui) -> bool {
    last matches Some(state) && same_blockades(state.blockades@, blockades) && state.selected_region == ui.selected_region
        && state.selected_sea_zone == ui.selected_sea_zone
}

/// Whether the blockades have to be drawn anew.
pub fn blockades_need_redraw(last: &Option<BlockadeState>, blockades: &Vec<PortBlockade>, ui: &Ui) -> (redraw: bool)
    ensures
        redraw == !still_drawn(*last, blockades@, *ui),
{
    match last {
        None => true,
        Some(state) => !(blockades_equal(&state.blockades, blockades) && state.selected_region == ui.selected_region
            && state.selected_sea_zone == ui.selected_sea_zone),
    }
}

/// Whether the lines from a blockaded port to its causes show: the port or one of the causes is
/// selected.
pub open spec fn revealed(blockade: PortBlockade, ui: Ui) -> bool {
    ui.selected_region == Some(blockade.region) || exists|i: int|
        0 <= i < blockade.causes@.len() && ui.selected_sea_zone == Some(#[trigger] blockade.causes@[i])
}

/// Whether the lines from a blockaded port to its causes show.
pub fn blockade_revealed(blockade: &PortBlockade, ui: &Ui) -> (shown: bool)
    ensures
        shown == revealed(*blockade, *ui),
{
    if let Some(region) = ui.selected_region {
        if region == blockade.region {
            return true;
        }
    }
    let zone = match ui.selected_sea_zone {
        Some(zone) => zone,
        None => return false,
    };
    let mut i: usize = 0;
    while i < blockade.causes.len()
        invariant
            i <= blockade.causes.len(),
            ui.selected_sea_zone == Some(zone),
            ui.selected_region != Some(blockade.region),
            forall|k: int| 0 <= k < i ==> blockade.causes@[k] != zone,
        decreases blockade.causes.len() - i,
    {
        if blockade.causes[i] == zone {
            return true;
        }
        i += 1;
    }
    false
}

} // verus!
