//! Where things stand on the map, how large they are drawn, and which of them show.
use crate::arithmetic::{
    exact_results_stand, lemma_nearest_scales, opposite, product_of, products_commute, quotient_of, root_of,
    roots_are_numbers, signed_units, sum_of, sums_commute, units, whole,
};
use crate::arithmetic_laws::{
    adding_nothing_changes_nothing, lemma_nothing_rounds_to_nothing, lemma_positive_counts, lemma_units_ascend,
    quotients_ascend, ranges_keep_order, roots_ascend, sums_ascend, times_one_changes_nothing,
};
use crate::camera_laws::{lemma_between, products_keep_their_side, sums_go_the_way_of_what_is_added};
use crate::geometry::{bounds_of, centroid_of, length_of, origin, square_of, subtracted, total_of};
use crate::label_laws::{
    far, lemma_difference, lemma_in_reach, lemma_length_is_near, lemma_opposites_count_alike, lemma_product,
    lemma_square, lemma_sum, small,
};
use crate::layout::{hair, pitch_of};
use crate::map_geometry::{
    border_of, hexagon_fill, hexagon_radius, largest_radius, least_radius, places_of, push_distance, radius_of,
    zone_center,
};
use crate::map_mode::populations;
use crate::map_setup::{
    dense, every_pair_is_drawn, first_of_pairs, links_of, place_of, same_pair, significant, zone_radius, DrawnLink,
};
use crate::palette::one;
use crate::quantity::{exponent, significand, zero, Quantity};
use crate::ranking::{in_order, order_is_total, ranked};
use crate::rounding::{nearest_value, roots_are_near, rounded_within, rounding_is_near};
use crate::types::{RegionId, SeaZoneId, Station, TransportNodeId};
use crate::visuals::{label_shown, size_of, stands_at};
use crate::world::{Balance, Point, Unit, World};
use vstd::arithmetic::power2::{lemma2_to64, lemma2_to64_rest, lemma_pow2_adds, lemma_pow2_pos, lemma_pow2_strictly_increases, pow2};
use vstd::prelude::*;

verus! {

/// A map is dense from its hundred and first region on.
pub proof fn maps_get_dense(world: World)
    ensures
        dense(world) <==> 100 < world.regions@.len(),
{
}

/// A region is significant if it is a capital or has at least as many people as nine tenths of the regions; where there is
/// no region, none has enough.
pub proof fn capitals_and_populous_regions_are_significant(world: World, region: RegionId)
    requires
        world.has_region(region),
    ensures
        significant(world, region) <==> {
            ||| exists|f: int| 0 <= f < world.factions@.len() && (#[trigger] world.factions@[f]).capital == region
            ||| ranked(populations(world))[(9 * world.regions@.len() / 10) as int].at_most(world.region_at(region).population)
        },
{
    let n = world.regions@.len();
    assert(n * 90 / 100 == 9 * n / 10) by (nonlinear_arith);
    assert(9 * n / 10 < n) by (nonlinear_arith)
        requires
            n > 0,
    ;
    order_is_total();
    let values = populations(world);
    values.lemma_sort_by_ensures(in_order());
    values.to_multiset_ensures();
    ranked(values).to_multiset_ensures();
}

/// Every link of a region is drawn, between that region and the one it leads to.
pub proof fn every_link_is_drawn(world: World, i: int, k: int)
    requires
        world.regions@.len() <= u32::MAX,
        0 <= i < world.regions@.len(),
        0 <= k < world.regions@[i].links@.len(),
    ensures
        ({
            let drawn = first_of_pairs(links_of(world, world.regions@.len()));
            let (a, b) = (RegionId(i as u32), world.regions@[i].links@[k].to);
            exists|m: int|
                0 <= m < drawn.len() && (((#[trigger] drawn[m]).a == a && drawn[m].b == b) || (drawn[m].a == b && drawn[m].b
                    == a))
        }),
{
    let all = links_of(world, world.regions@.len());
    let m = lemma_link_is_listed(world, i, k, world.regions@.len());
    every_pair_is_drawn(all, m);
    let drawn = first_of_pairs(all);
    let j = choose|j: int| 0 <= j < drawn.len() && same_pair(#[trigger] drawn[j], all[m]);
    assert(same_pair(drawn[j], all[m]));
}

proof fn lemma_link_is_listed(world: World, i: int, k: int, n: nat) -> (m: int)
    requires
        i < n <= world.regions@.len() <= u32::MAX,
        0 <= i,
        0 <= k < world.regions@[i].links@.len(),
    ensures
        0 <= m < links_of(world, n).len(),
        links_of(world, n)[m] == (DrawnLink {
            a: RegionId(i as u32),
            b: world.regions@[i].links@[k].to,
            kind: world.regions@[i].links@[k].kind,
        }),
    decreases n,
{
    let before = links_of(world, (n - 1) as nat);
    if i == n - 1 {
        before.len() as int + k
    } else {
        lemma_link_is_listed(world, i, k, (n - 1) as nat)
    }
}

/// What is drawn is a link of the region it starts from, of its own kind.
pub proof fn only_links_are_drawn(world: World, m: int)
    requires
        world.regions@.len() <= u32::MAX,
        0 <= m < first_of_pairs(links_of(world, world.regions@.len())).len(),
    ensures
        ({
            let link = first_of_pairs(links_of(world, world.regions@.len()))[m];
            &&& link.a.0 < world.regions@.len()
            &&& exists|k: int|
                0 <= k < world.regions@[link.a.0 as int].links@.len() && (#[trigger] world.regions@[link.a.0 as int].links@[k]).to
                    == link.b && world.regions@[link.a.0 as int].links@[k].kind == link.kind
        }),
{
    let all = links_of(world, world.regions@.len());
    let j = lemma_drawn_is_listed(all, m);
    lemma_listed_is_a_link(world, j, world.regions@.len());
}

proof fn lemma_drawn_is_listed(links: Seq<DrawnLink>, m: int) -> (j: int)
    requires
        0 <= m < first_of_pairs(links).len(),
    ensures
        0 <= j < links.len(),
        links[j] == first_of_pairs(links)[m],
    decreases links.len(),
{
    let before = first_of_pairs(links.drop_last());
    if m < before.len() {
        lemma_drawn_is_listed(links.drop_last(), m)
    } else {
        links.len() - 1
    }
}

proof fn lemma_listed_is_a_link(world: World, j: int, n: nat)
    requires
        n <= world.regions@.len() <= u32::MAX,
        0 <= j < links_of(world, n).len(),
    ensures
        ({
            let link = links_of(world, n)[j];
            &&& link.a.0 < n
            &&& exists|k: int|
                0 <= k < world.regions@[link.a.0 as int].links@.len() && (#[trigger] world.regions@[link.a.0 as int].links@[k]).to
                    == link.b && world.regions@[link.a.0 as int].links@[k].kind == link.kind
        }),
    decreases n,
{
    let before = links_of(world, (n - 1) as nat);
    if j < before.len() {
        lemma_listed_is_a_link(world, j, (n - 1) as nat);
    } else {
        let k = j - before.len();
        assert(world.regions@[n - 1].links@[k].to == links_of(world, n)[j].b);
    }
}

/// A sea zone is drawn larger by three for each region on its coast, from fourteen up to thirty-two.
pub proof fn sea_zones_grow_with_their_coast(coast: nat)
    ensures
        zone_radius(0) == 14,
        coast < 6 ==> zone_radius(coast + 1) == zone_radius(coast) + 3,
        coast >= 6 ==> zone_radius(coast) == 32,
{
}

/// A unit stands where its region or sea zone lies, and on an airfield where the airfield's region does.
pub proof fn units_stand_at_their_station(world: World, regions: Seq<Point>, zones: Seq<Point>, r: RegionId, z: SeaZoneId, n: TransportNodeId)
    ensures
        place_of(world, Station::Region(r), regions, zones) == regions[r.0 as int],
        place_of(world, Station::Sea(z), regions, zones) == zones[z.0 as int],
        place_of(world, Station::Airfield(n), regions, zones) == place_of(
            world,
            Station::Region(world.nodes@[n.0 as int].region),
            regions,
            zones,
        ),
{
}

/// Only the living stand anywhere, and they stand at their own station alone.
pub proof fn the_living_stand_somewhere(unit: Unit, station: Station)
    ensures
        stands_at(unit, station) <==> unit.alive && unit.station == station,
{
}

/// The name of a region shows if it always does, if the region is occupied or selected, or from near enough; otherwise it
/// does not.
pub proof fn names_show_when_they_matter(world: World, region: RegionId, always: bool, scale: Quantity, selected: Option<RegionId>)
    requires
        world.has_region(region),
    ensures
        label_shown(world, region, always, Some(scale), selected) <==> {
            ||| always
            ||| world.region_at(region).occupier is Some
            ||| selected == Some(region)
            ||| scale.at_most(Quantity { bits: 0x3fc0_0000 })
        },
        label_shown(world, region, always, None, selected) <==> {
            ||| always
            ||| world.region_at(region).occupier is Some
            ||| selected == Some(region)
        },
{
}

/// What the constants of the map count.
pub(crate) proof fn lemma_constants()
    ensures
        ({
            let u = pow2(149);
            &&& u >= 0x100_0000
            &&& units(one()) == u
            &&& units(Quantity { bits: 0x4000_0000 }) == 2 * u
            &&& units(Quantity { bits: 0x4040_0000 }) == 3 * u
            &&& units(Quantity { bits: 0x40a0_0000 }) == 5 * u
            &&& units(least_radius()) == 9 * u
            &&& units(Quantity { bits: 0x4130_0000 }) == 11 * u
            &&& units(Quantity { bits: 0x4140_0000 }) == 12 * u
            &&& units(largest_radius()) == 22 * u
            &&& units(Quantity { bits: 0x41c0_0000 }) == 24 * u
            &&& units(Quantity { bits: 0x4220_0000 }) == 40 * u
            &&& units(Quantity { bits: 0x4380_0000 }) == 256 * u
            &&& units(Quantity { bits: 0x4400_0000 }) == 512 * u
            &&& units(Quantity { bits: 0x4480_0000 }) == 1024 * u
            &&& units(Quantity { bits: 0x4500_0000 }) == 2048 * u
            &&& 119 * u <= 1000 * units(Quantity { bits: 0x3df5_c28f }) <= 121 * u
            &&& 179 * u <= 1000 * units(Quantity { bits: 0x3e38_51ec }) <= 181 * u
            &&& 399 * u <= 1000 * units(Quantity { bits: 0x3ecc_cccd }) <= 401 * u
            &&& 919 * u <= 1000 * units(hexagon_fill()) <= 921 * u
        }),
{
    lemma2_to64();
    lemma_pow2_adds(24, 125);
    lemma_pow2_pos(125);
    lemma_scaled_power(one(), 0x80_0000, 23, 126, 0x800000);
    lemma_scaled_power(Quantity { bits: 0x4000_0000 }, 0x80_0000, 22, 127, 0x400000);
    lemma_scaled_power(Quantity { bits: 0x4040_0000 }, 0xc0_0000, 22, 127, 0x400000);
    lemma_scaled_power(Quantity { bits: 0x40a0_0000 }, 0xa0_0000, 21, 128, 0x200000);
    lemma_scaled_power(least_radius(), 0x90_0000, 20, 129, 0x100000);
    lemma_scaled_power(Quantity { bits: 0x4130_0000 }, 0xb0_0000, 20, 129, 0x100000);
    lemma_scaled_power(Quantity { bits: 0x4140_0000 }, 0xc0_0000, 20, 129, 0x100000);
    lemma_scaled_power(largest_radius(), 0xb0_0000, 19, 130, 0x80000);
    lemma_scaled_power(Quantity { bits: 0x41c0_0000 }, 0xc0_0000, 19, 130, 0x80000);
    lemma_scaled_power(Quantity { bits: 0x4220_0000 }, 0xa0_0000, 18, 131, 0x40000);
    lemma_scaled_power(Quantity { bits: 0x4380_0000 }, 0x80_0000, 15, 134, 0x8000);
    lemma_scaled_power(Quantity { bits: 0x4400_0000 }, 0x80_0000, 14, 135, 0x4000);
    lemma_scaled_power(Quantity { bits: 0x4480_0000 }, 0x80_0000, 13, 136, 0x2000);
    lemma_scaled_power(Quantity { bits: 0x4500_0000 }, 0x80_0000, 12, 137, 0x1000);
    lemma_scaled_power(Quantity { bits: 0x3df5_c28f }, 0xf5_c28f, 27, 122, 0x8000000);
    lemma_scaled_power(Quantity { bits: 0x3e38_51ec }, 0xb8_51ec, 26, 123, 0x4000000);
    lemma_scaled_power(Quantity { bits: 0x3ecc_cccd }, 0xcc_cccd, 25, 124, 0x2000000);
    lemma_scaled_power(hexagon_fill(), 0xeb_851f, 24, 125, 0x1000000);
    let u = pow2(149);
    assert(u >= 0x100_0000) by (nonlinear_arith)
        requires
            u == 0x100_0000 * pow2(125),
            pow2(125) > 0,
    ;
}

/// What a quantity counts, out of what 1 counts.
pub(crate) proof fn lemma_scaled_power(q: Quantity, sig: nat, k: nat, m: nat, steps: nat)
    requires
        k + m == 149,
        exponent(q.bits) == -(k as int),
        significand(q.bits) == sig,
        steps == pow2(k),
    ensures
        units(q) * steps == sig * pow2(149),
{
    lemma_pow2_adds(k, m);
    assert((significand(q.bits) * pow2(m)) * pow2(k) == significand(q.bits) * (pow2(k) * pow2(m))) by (nonlinear_arith);
}

/// A rounded product is near the product: `x` times about `c` out of `u`, in thousandths.
proof fn lemma_near_product(w: int, x: int, c: int, u: int, low: int, high: int)
    requires
        w >= 0,
        u >= 0x100_0000,
        x >= u,
        0 < low <= high <= 1000,
        low * u <= 1000 * c <= high * u,
        ({
            let off = w * u - x * c;
            (-u <= 2 * off <= u) || (-(x * c) <= 0x100_0000 * off <= x * c)
        }),
    ensures
        (low - 1) * x <= 1000 * w <= (high + 1) * x,
{
    let (xc, wu, xu) = (x * c, w * u, x * u);
    assert(low * xu <= 1000 * xc <= high * xu) by (nonlinear_arith)
        requires
            low * u <= 1000 * c <= high * u,
            x > 0,
            xc == x * c,
            xu == x * u,
    ;
    assert(xu >= 1000 * u && high * xu <= 1000 * xu) by (nonlinear_arith)
        requires
            xu == x * u,
            x >= u,
            u >= 0x100_0000,
            high <= 1000,
    ;
    assert((low - 1) * xu == low * xu - xu && (high + 1) * xu == high * xu + xu) by (nonlinear_arith);
    assert((low - 1) * xu <= 1000 * wu <= (high + 1) * xu);
    assert((low - 1) * x <= 1000 * w <= (high + 1) * x) by (nonlinear_arith)
        requires
            (low - 1) * xu <= 1000 * wu <= (high + 1) * xu,
            xu == x * u,
            wu == w * u,
            u > 0,
    ;
}

/// A rounded quotient is near the quotient.
proof fn lemma_near_quotient(q: int, s: int, p: int, u: int)
    requires
        u >= 0x100_0000,
        p >= u,
        0 < s <= 3 * u,
        ({
            let off = q * s - p * u;
            (-s <= 2 * off <= s) || (-(p * u) <= 0x100_0000 * off <= p * u)
        }),
    ensures
        999 * (p * u) <= 1000 * (q * s) <= 1001 * (p * u),
{
    let pu = p * u;
    assert(pu >= 3000 * u) by (nonlinear_arith)
        requires
            pu == p * u,
            p >= u,
            u >= 0x100_0000,
    ;
}

/// A quantity within limits is held where it is.
proof fn lemma_kept(q: Quantity, low: Quantity, high: Quantity)
    requires
        q.finite(),
        low.finite(),
        high.finite(),
        !q.negative(),
        !low.negative(),
        !high.negative(),
        units(low) < units(q) < units(high),
    ensures
        crate::arithmetic::held_between(q, low, high) == q,
{
    if q.less(low) {
        lemma_units_ascend(q, low);
    }
    if high.less(q) {
        lemma_units_ascend(high, q);
    }
}

proof fn lemma_squares(w: int, v: int, low: int, high: int)
    requires
        low * v <= 1000 * w <= high * v,
        low >= 0,
        v >= 0,
        w >= 0,
    ensures
        (low * low) * (v * v) <= 1_000_000 * (w * w) <= (high * high) * (v * v),
{
    assert((low * v) * (low * v) <= (1000 * w) * (1000 * w)) by (nonlinear_arith)
        requires
            0 <= low * v <= 1000 * w,
    ;
    assert((1000 * w) * (1000 * w) <= (high * v) * (high * v)) by (nonlinear_arith)
        requires
            0 <= 1000 * w <= high * v,
    ;
    assert((low * v) * (low * v) == (low * low) * (v * v)) by (nonlinear_arith);
    assert((high * v) * (high * v) == (high * high) * (v * v)) by (nonlinear_arith);
    assert((1000 * w) * (1000 * w) == 1_000_000 * (w * w)) by (nonlinear_arith);
}

/// The radius of a region is about two fifths of the root of its population: its square is about sixteen hundredths of it.
pub proof fn radii_are_two_fifths_of_the_root(population: Quantity)
    requires
        (Quantity { bits: 0x4480_0000 }).at_most(population),
        population.at_most(Quantity { bits: 0x4500_0000 }),
    ensures
        ({
            let (p, r, u) = (units(population), units(radius_of(population)), pow2(149));
            158 * (p * u) <= 1000 * (r * r) <= 162 * (p * u)
        }),
{
    let share = Quantity { bits: 0x3ecc_cccd };
    let (p, u) = (units(population), pow2(149));
    lemma_constants();
    lemma_between(population, Quantity { bits: 0x4480_0000 }, Quantity { bits: 0x4500_0000 });
    let root = root_of(population);
    assert(population.positive());
    roots_are_near(population);
    roots_are_numbers(population);
    let v = units(root);
    let (vv, pu, uu) = (v * v, p * u, u * u);
    assert(1024 * uu <= pu <= 2048 * uu) by (nonlinear_arith)
        requires
            1024 * u <= p <= 2048 * u,
            pu == p * u,
            uu == u * u,
    ;
    assert(1000 * uu <= vv <= 2100 * uu);
    assert(31 * u <= v <= 64 * u) by (nonlinear_arith)
        requires
            1000 * uu <= vv <= 2100 * uu,
            vv == v * v,
            uu == u * u,
            u > 0,
            v >= 0,
    ;
    assert(!root.negative()) by {
        assert(root.rank() > 0);
    }
    lemma2_to64();
    lemma_pow2_adds(6, 149);
    lemma_product(root, share, 155, 149, 155);
    let r = product_of(root, share);
    let w = units(r);
    rounding_is_near(v * units(share), u);
    lemma_near_product(w as int, v as int, units(share) as int, u as int, 399, 401);
    lemma_squares(w as int, v as int, 398, 402);
    assert(9 * u < w < 22 * u) by (nonlinear_arith)
        requires
            158404 * vv <= 1_000_000 * (w * w) <= 161604 * vv,
            1000 * uu <= vv <= 2100 * uu,
            uu == u * u,
            u > 0,
            w >= 0,
    ;
    lemma_kept(r, least_radius(), largest_radius());
}

/// On a dense map the hexagons leave a little room between neighbours: the square of the distance between two sides is
/// about 0.92 squared of the square of the pitch.
pub proof fn hexagons_almost_fill_their_pitch(places: Seq<Point>)
    requires
        (Quantity { bits: 0x41c0_0000 }).at_most(pitch_of(places)),
        pitch_of(places).at_most(Quantity { bits: 0x4220_0000 }),
    ensures
        ({
            let (p, r) = (units(pitch_of(places)), units(hexagon_radius(places)));
            840 * (p * p) <= 1000 * (3 * (r * r)) <= 853 * (p * p)
        }),
{
    let pitch = pitch_of(places);
    let three = Quantity { bits: 0x4040_0000 };
    let (p, u) = (units(pitch), pow2(149));
    lemma_constants();
    lemma_between(pitch, Quantity { bits: 0x41c0_0000 }, Quantity { bits: 0x4220_0000 });
    assert(three.positive());
    roots_are_near(three);
    roots_are_numbers(three);
    let root = root_of(three);
    let s = units(root);
    let (ss, uu) = (s * s, u * u);
    assert((3 * u) * u == 3 * uu) by (nonlinear_arith)
        requires
            uu == u * u,
    ;
    assert(uu > 0) by (nonlinear_arith)
        requires
            uu == u * u,
            u > 0,
    ;
    assert(2999 * uu <= 1000 * ss <= 3001 * uu);
    assert(u <= s <= 3 * u) by (nonlinear_arith)
        requires
            2999 * uu <= 1000 * ss <= 3001 * uu,
            ss == s * s,
            uu == u * u,
            u > 0,
            s >= 0,
    ;
    assert(root.rank() > 0 && root.finite());
    let quotient = quotient_of(pitch, root);
    assert(!pitch.negative()) by {
        assert(pitch.rank() > 0);
    }
    lemma2_to64();
    lemma_pow2_adds(6, 149);
    assert(p * u <= s * pow2(155)) by (nonlinear_arith)
        requires
            p <= 40 * u,
            u <= s,
            pow2(155) == 64 * u,
    ;
    rounded_within(false, p * u, s, 155);
    rounding_is_near(p * u, s);
    let q = units(quotient);
    lemma_near_quotient(q as int, s as int, p as int, u as int);
    lemma_product(quotient, hexagon_fill(), 155, 149, 155);
    let r = product_of(quotient, hexagon_fill());
    let w = units(r);
    rounding_is_near(q * units(hexagon_fill()), u);
    lemma_root_cancels(q as int, s as int, p as int, u as int);
    let (qq, pp, ww) = (q * q, p * p, w * w);
    assert(24 * u <= p) by {}
    assert(576 * uu <= pp <= 1600 * uu) by (nonlinear_arith)
        requires
            24 * u <= p <= 40 * u,
            pp == p * p,
            uu == u * u,
    ;
    assert(q >= u) by (nonlinear_arith)
        requires
            3_001_000 * qq >= 998_001 * pp,
            576 * uu <= pp,
            qq == q * q,
            uu == u * u,
            u > 0,
            q >= 0,
    ;
    lemma_near_product(w as int, q as int, units(hexagon_fill()) as int, u as int, 919, 921);
    lemma_squares(w as int, q as int, 918, 922);
    assert(842_724 * qq <= 1_000_000 * ww <= 850_084 * qq);
    assert(9 * u < w < 22 * u) by (nonlinear_arith)
        requires
            842_724 * qq <= 1_000_000 * ww <= 850_084 * qq,
            3_001_000 * qq >= 998_001 * pp,
            2_999_000 * qq <= 1_002_001 * pp,
            576 * uu <= pp <= 1600 * uu,
            ww == w * w,
            uu == u * u,
            u > 0,
            w >= 0,
    ;
    lemma_kept(r, least_radius(), largest_radius());
}

/// Dividing by a root and squaring divides.
proof fn lemma_root_cancels(q: int, s: int, p: int, u: int)
    requires
        u > 0,
        q >= 0,
        p >= 0,
        s > 0,
        999 * (p * u) <= 1000 * (q * s) <= 1001 * (p * u),
        2999 * (u * u) <= 1000 * (s * s) <= 3001 * (u * u),
    ensures
        3_001_000 * (q * q) >= 998_001 * (p * p),
        2_999_000 * (q * q) <= 1_002_001 * (p * p),
{
    let (a, b) = (q * s, p * u);
    assert(b >= 0 && a >= 0) by (nonlinear_arith)
        requires
            a == q * s,
            b == p * u,
            q >= 0,
            s > 0,
            p >= 0,
            u > 0,
    ;
    lemma_squares(a, b, 999, 1001);
    let (qq, ss, pp, uu) = (q * q, s * s, p * p, u * u);
    assert(a * a == qq * ss) by (nonlinear_arith)
        requires
            a == q * s,
            qq == q * q,
            ss == s * s,
    ;
    assert(b * b == pp * uu) by (nonlinear_arith)
        requires
            b == p * u,
            pp == p * p,
            uu == u * u,
    ;
    assert(2999 * (qq * uu) <= 1000 * (qq * ss) <= 3001 * (qq * uu)) by (nonlinear_arith)
        requires
            2999 * uu <= 1000 * ss <= 3001 * uu,
            qq >= 0,
    ;
    assert(3_001_000 * (qq * uu) >= 998_001 * (pp * uu));
    assert(2_999_000 * (qq * uu) <= 1_002_001 * (pp * uu));
    assert(uu > 0) by (nonlinear_arith)
        requires
            uu == u * u,
            u > 0,
    ;
    assert(3_001_000 * qq >= 998_001 * pp && 2_999_000 * qq <= 1_002_001 * pp) by (nonlinear_arith)
        requires
            3_001_000 * (qq * uu) >= 998_001 * (pp * uu),
            2_999_000 * (qq * uu) <= 1_002_001 * (pp * uu),
            uu > 0,
    ;
}

/// On a dense map the border of a region reaches to the middle between neighbours: it is the radius over the share that
/// the hexagons fill, about 0.92.
pub proof fn dense_borders_meet(radius: Quantity)
    requires
        least_radius().at_most(radius),
        radius.at_most(largest_radius()),
    ensures
        ({
            let (r, b) = (units(radius), units(border_of(radius, true)));
            1084 * r <= 1000 * b <= 1090 * r
        }),
{
    let (r, u, h) = (units(radius), pow2(149), units(hexagon_fill()));
    lemma_constants();
    lemma_between(radius, least_radius(), largest_radius());
    assert(radius.rank() > 0);
    lemma2_to64();
    lemma_pow2_adds(6, 149);
    assert(r * u <= h * pow2(155)) by (nonlinear_arith)
        requires
            r <= 22 * u,
            919 * u <= 1000 * h,
            pow2(155) == 64 * u,
            u > 0,
    ;
    rounded_within(false, r * u, h, 155);
    rounding_is_near(r * u, h);
    let b = units(border_of(radius, true));
    lemma_near_quotient(b as int, h as int, r as int, u as int);
    assert(1084 * r <= 1000 * b <= 1090 * r) by (nonlinear_arith)
        requires
            999 * (r * u) <= 1000 * (b * h) <= 1001 * (r * u),
            919 * u <= 1000 * h <= 921 * u,
            u > 0,
            b >= 0,
            r >= 0,
    ;
}

/// Elsewhere the border runs outside the region, by about eighteen hundredths of the radius: by no less than 2, which is
/// what it is for small regions.
pub proof fn borders_run_outside(radius: Quantity)
    requires
        least_radius().at_most(radius),
        radius.at_most(largest_radius()),
    ensures
        ({
            let (r, b, u) = (units(radius), units(border_of(radius, false)), pow2(149));
            &&& (Quantity { bits: 0x4140_0000 }).at_most(radius) ==> 17 * r <= 100 * (b - r) <= 19 * r
            &&& radius.at_most(Quantity { bits: 0x4120_0000 }) ==> 19 * u <= 10 * (b - r) <= 21 * u
        }),
{
    let (share, two, five) = (Quantity { bits: 0x3e38_51ec }, Quantity { bits: 0x4000_0000 }, Quantity { bits: 0x40a0_0000 });
    let (r, u) = (units(radius), pow2(149));
    lemma_constants();
    lemma2_to64();
    lemma_scaled_power(Quantity { bits: 0x4120_0000 }, 0xa0_0000, 20, 129, 0x10_0000);
    lemma_between(radius, least_radius(), largest_radius());
    assert(radius.rank() > 0);
    lemma_pow2_adds(5, 149);
    lemma_product(radius, share, 154, 149, 154);
    let wide = product_of(radius, share);
    let w = units(wide);
    rounding_is_near(r * units(share), u);
    lemma_near_product(w as int, r as int, units(share) as int, u as int, 179, 181);
    let band = crate::arithmetic::held_between(wide, two, five);
    if (Quantity { bits: 0x4140_0000 }).at_most(radius) {
        lemma_units_ascend(Quantity { bits: 0x4140_0000 }, radius);
        lemma_kept(wide, two, five);
        lemma_near_sum(radius, band);
    }
    if radius.at_most(Quantity { bits: 0x4120_0000 }) {
        lemma_units_ascend(radius, Quantity { bits: 0x4120_0000 });
        if !wide.less(two) {
            lemma_units_ascend(two, wide);
        }
        lemma_near_sum(radius, band);
    }
}

/// A sum of two quantities of ordinary size is near what they count together.
pub(crate) proof fn lemma_near_sum(a: Quantity, b: Quantity)
    requires
        a.finite(),
        b.finite(),
        units(a) <= 4096 * pow2(149),
        units(b) <= 16384 * pow2(149),
    ensures
        sum_of(a, b).finite(),
        -pow2(149) <= 100 * (signed_units(sum_of(a, b)) - (signed_units(a) + signed_units(b))) <= pow2(149),
        !a.negative() && !b.negative() ==> signed_units(sum_of(a, b)) == units(sum_of(a, b)),
{
    let u = pow2(149);
    lemma2_to64();
    lemma_pow2_adds(14, 149);
    lemma_pow2_pos(149);
    lemma_sum(a, b, 163);
    let t = signed_units(a) + signed_units(b);
    let n = (if t < 0 { -t } else { t }) as nat;
    rounding_is_near(n, 1);
    assert(nearest_value(n, 1) * 1 == nearest_value(n, 1)) by (nonlinear_arith);
    lemma_pow2_adds(15, 149);
    assert(1 * pow2(164) == pow2(164)) by (nonlinear_arith);
    rounded_within(t < 0, n, 1, 164);
    lemma_constants();
}

/// Sea zones lie at least 40 out from their coast, and on larger maps about twelve hundredths of the extent of the map.
pub proof fn sea_zones_lie_off_the_map(places: Seq<Point>)
    requires
        places.len() > 0,
    ensures
        ({
            let b = bounds_of(places);
            let extent = length_of(subtracted(b.max, b.min));
            let push = push_distance(places);
            &&& (Quantity { bits: 0x4220_0000 }).at_most(push)
            &&& one().at_most(extent) && extent.at_most(Quantity { bits: 0x4380_0000 }) ==> push == (Quantity {
                bits: 0x4220_0000,
            })
            &&& (Quantity { bits: 0x4400_0000 }).at_most(extent) && extent.at_most(far()) ==> 118 * units(extent) <= 1000
                * units(push) <= 122 * units(extent)
        }),
{
    let (share, least) = (Quantity { bits: 0x3df5_c28f }, Quantity { bits: 0x4220_0000 });
    let b = bounds_of(places);
    let extent = length_of(subtracted(b.max, b.min));
    let u = pow2(149);
    lemma_constants();
    if one().at_most(extent) && extent.at_most(far()) {
        lemma_between(extent, one(), far());
        assert(extent.rank() > 0);
        lemma_in_reach_of_far(extent);
        lemma_product(extent, share, 209, 149, 209);
        let wide = product_of(extent, share);
        let w = units(wide);
        rounding_is_near(units(extent) * units(share), u);
        lemma_near_product(w as int, units(extent) as int, units(share) as int, u as int, 119, 121);
        if extent.at_most(Quantity { bits: 0x4380_0000 }) {
            lemma_units_ascend(extent, Quantity { bits: 0x4380_0000 });
            if !wide.less(least) {
                lemma_units_ascend(least, wide);
            }
        }
        if (Quantity { bits: 0x4400_0000 }).at_most(extent) {
            lemma_units_ascend(Quantity { bits: 0x4400_0000 }, extent);
            if wide.less(least) {
                lemma_units_ascend(wide, least);
            }
        }
    }
}

pub(crate) proof fn lemma_in_reach_of_far(q: Quantity)
    requires
        zero().at_most(q),
        q.at_most(far()),
    ensures
        small(q, 209),
{
    assert(opposite(far()).rank() < 0) by {
        assert(opposite(far()).bits == 0xdd80_0000);
    }
    lemma_in_reach(q);
}

/// A sea zone with a coast lies outward from the middle of its coast as seen from the middle of the map, and far enough
/// to tell in each direction that is at least half of the way; without a coast it lies in the middle of the map.
pub proof fn sea_zones_lie_outward(places: Seq<Point>, coast: Seq<RegionId>)
    requires
        places.len() > 0,
        coast.len() > 0,
        ordinary(centroid_of(places_of(places, coast))),
        ordinary(centroid_of(places)),
        one().at_most(length_of(subtracted(centroid_of(places_of(places, coast)), centroid_of(places)))),
        push_distance(places).at_most(Quantity { bits: 0x4580_0000 }),
    ensures
        ({
            let off = centroid_of(places_of(places, coast));
            let away = subtracted(off, centroid_of(places));
            let center = zone_center(places, coast);
            let length = length_of(away);
            outward(off.x, away.x, length, center.x) && outward(off.y, away.y, length, center.y)
        }),
        zone_center(places, Seq::empty()) == centroid_of(places),
{
    let off = centroid_of(places_of(places, coast));
    let middle = centroid_of(places);
    let away = subtracted(off, middle);
    let push = push_distance(places);
    let len = length_of(away);
    let edge = Quantity { bits: 0x4580_0000 };
    lemma_constants();
    lemma_ordinary(off.x);
    lemma_ordinary(off.y);
    lemma_ordinary(middle.x);
    lemma_ordinary(middle.y);
    lemma_difference(off.x, middle.x, 161);
    lemma_difference(off.y, middle.y, 161);
    lemma_pow2_strictly_increases(162, 210);
    sea_zones_lie_off_the_map(places);
    lemma_edge();
    lemma_between(push, Quantity { bits: 0x4220_0000 }, edge);
    lemma_sides(away);
    lemma_far_from_nothing(away);
    lemma_pushed(away.x, off.x, len, push);
    lemma_pushed(away.y, off.y, len, push);
}

/// Whether a point is within 4096 of the middle, in either direction.
pub open spec fn ordinary(p: Point) -> bool {
    &&& (Quantity { bits: 0xc580_0000 }).at_most(p.x) && p.x.at_most(Quantity { bits: 0x4580_0000 })
    &&& (Quantity { bits: 0xc580_0000 }).at_most(p.y) && p.y.at_most(Quantity { bits: 0x4580_0000 })
}

/// Whether `to` lies from `from` in the direction of `away`, and by 16 or more where that is at least half of `length`.
pub open spec fn outward(from: Quantity, away: Quantity, length: Quantity, to: Quantity) -> bool {
    &&& zero().at_most(away) ==> from.at_most(to)
    &&& away.at_most(zero()) ==> to.at_most(from)
    &&& 2 * units(away) >= units(length) ==> if away.negative() {
        signed_units(to) + 16 * pow2(149) <= signed_units(from)
    } else {
        signed_units(from) + 16 * pow2(149) <= signed_units(to)
    }
}

pub(crate) proof fn lemma_edge()
    ensures
        units(Quantity { bits: 0x4580_0000 }) == 4096 * pow2(149),
        units(Quantity { bits: 0xc580_0000 }) == 4096 * pow2(149),
        pow2(161) == 4096 * pow2(149),
{
    lemma2_to64();
    lemma_scaled_power(Quantity { bits: 0x4580_0000 }, 0x80_0000, 11, 138, 0x800);
    lemma_scaled_power(Quantity { bits: 0xc580_0000 }, 0x80_0000, 11, 138, 0x800);
    lemma_pow2_adds(12, 149);
}

pub(crate) proof fn lemma_ordinary(q: Quantity)
    requires
        (Quantity { bits: 0xc580_0000 }).at_most(q),
        q.at_most(Quantity { bits: 0x4580_0000 }),
    ensures
        q.finite(),
        units(q) <= 4096 * pow2(149),
        small(q, 161),
{
    lemma_edge();
    lemma_units_ascend(Quantity { bits: 0xc580_0000 }, q);
    lemma_units_ascend(q, Quantity { bits: 0x4580_0000 });
}

/// What has a length of 1 or more has a square that counts.
proof fn lemma_far_from_nothing(v: Point)
    requires
        small(v.x, 210),
        small(v.y, 210),
        one().at_most(length_of(v)),
    ensures
        (Quantity { bits: 0x3586_37bd }).less(square_of(v)),
{
    let tiny = Quantity { bits: 0x3586_37bd };
    let u = pow2(149);
    lemma_square(v);
    if !tiny.less(square_of(v)) {
        assert(zero().at_most(square_of(v)));
        roots_ascend(square_of(v), tiny);
        assert(tiny.positive());
        lemma2_to64();
        lemma_constants();
        lemma2_to64_rest();
        lemma_scaled_power(tiny, 0x86_37bd, 43, 106, 0x800_0000_0000);
        roots_are_near(tiny);
        roots_are_numbers(tiny);
        lemma_units_ascend(one(), root_of(tiny));
        let (w, t) = (units(root_of(tiny)), units(tiny));
        assert(1000 * t <= u);
        assert(w < u) by (nonlinear_arith)
            requires
                0x40_0000 * (w * w - t * u) <= w * w,
                1000 * t <= u,
                u > 0,
                w >= 0,
        ;
    }
}

/// One over a length that is at least 1.
proof fn lemma_inverse(len: Quantity)
    requires
        one().at_most(len),
        len.finite(),
        units(len) <= pow2(163),
    ensures
        ({
            let (l, i, u) = (units(len), units(quotient_of(one(), len)), pow2(149));
            &&& quotient_of(one(), len).finite()
            &&& zero().less(quotient_of(one(), len))
            &&& !quotient_of(one(), len).negative()
            &&& 999 * (u * u) <= 1000 * (i * l) <= 1001 * (u * u)
            &&& i <= u
        }),
{
    let (l, u) = (units(len), pow2(149));
    lemma_constants();
    lemma_units_ascend(one(), len);
    assert(len.rank() > 0);
    lemma2_to64();
    lemma_pow2_adds(14, 149);
    assert(u * u <= l * pow2(149)) by (nonlinear_arith)
        requires
            u <= l,
            u == pow2(149),
    ;
    rounded_within(false, u * u, l, 149);
    rounding_is_near(u * u, l);
    let i = units(quotient_of(one(), len));
    assert(500 * l <= u * u) by (nonlinear_arith)
        requires
            l <= 16384 * u,
            u >= 0x100_0000,
    ;
    assert(i > 0) by (nonlinear_arith)
        requires
            999 * (u * u) <= 1000 * (i * l),
            u >= 0x100_0000,
    ;
    let q = quotient_of(one(), len);
    if q.rank() == 0 {
        assert(units(q) == 0) by (nonlinear_arith)
            requires
                units(q) == 0 * pow2(0),
        ;
    }
}

/// One coordinate of a sea zone.
proof fn lemma_pushed(a: Quantity, o: Quantity, len: Quantity, push: Quantity)
    requires
        small(a, 162),
        units(a) <= 2 * units(len),
        o.finite(),
        units(o) <= 4096 * pow2(149),
        one().at_most(len),
        len.finite(),
        units(len) <= pow2(163),
        push.finite(),
        zero().less(push),
        40 * pow2(149) <= units(push) <= 4096 * pow2(149),
    ensures
        outward(o, a, len, sum_of(o, product_of(product_of(a, quotient_of(one(), len)), push))),
{
    let inverse = quotient_of(one(), len);
    let (x, l, i, p, u) = (units(a), units(len), units(inverse), units(push), pow2(149));
    lemma_constants();
    lemma_inverse(len);
    lemma_edge();
    lemma_product(a, inverse, 162, 149, 162);
    let way = product_of(a, inverse);
    lemma_product(way, push, 162, 161, 174);
    let far_out = product_of(way, push);
    products_keep_their_side(a, inverse);
    products_keep_their_side(way, push);
    sums_go_the_way_of_what_is_added(o, far_out);
    if 2 * x >= l {
        let (d, e) = (units(way), units(far_out));
        rounding_is_near(x * i, u);
        rounding_is_near(d * p, u);
        let (uu, xi, dp) = (u * u, x * i, d * p);
        assert(2000 * xi >= 999 * uu && 1000 * xi <= 2002 * uu) by (nonlinear_arith)
            requires
                l <= 2 * x,
                x <= 2 * l,
                999 * uu <= 1000 * (i * l) <= 1001 * uu,
                xi == x * i,
                i >= 0,
        ;
        assert(uu >= 0x100_0000 * u) by (nonlinear_arith)
            requires
                uu == u * u,
                u >= 0x100_0000,
        ;
        assert(499 * uu <= 1000 * (d * u) <= 2010 * uu);
        assert(499 * u <= 1000 * d <= 2010 * u) by (nonlinear_arith)
            requires
                499 * uu <= 1000 * (d * u) <= 2010 * uu,
                uu == u * u,
                u > 0,
        ;
        assert(19_960 * uu <= 1000 * dp <= 8_232_960 * uu) by (nonlinear_arith)
            requires
                499 * u <= 1000 * d <= 2010 * u,
                40 * u <= p <= 4096 * u,
                dp == d * p,
                uu == u * u,
                u > 0,
        ;
        assert(19 * uu <= e * u <= 16384 * uu);
        assert(19 * u <= e <= 16384 * u) by (nonlinear_arith)
            requires
                19 * uu <= e * u <= 16384 * uu,
                uu == u * u,
                u > 0,
        ;
        lemma_near_sum(o, far_out);
    }
}

/// A length is no more than about the sides together, and each side no more than twice the length.
proof fn lemma_sides(v: Point)
    requires
        small(v.x, 162),
        small(v.y, 162),
        one().at_most(length_of(v)),
    ensures
        length_of(v).finite(),
        units(length_of(v)) <= pow2(163),
        units(v.x) <= 2 * units(length_of(v)),
        units(v.y) <= 2 * units(length_of(v)),
{
    lemma_pow2_strictly_increases(162, 210);
    assert(hair().less(length_of(v)));
    lemma_length_is_near(v);
    let (x, y, l, b) = (units(v.x), units(v.y), units(length_of(v)), pow2(162));
    lemma2_to64();
    lemma_pow2_adds(1, 162);
    let t = x * x + y * y;
    assert(t <= 2 * (b * b)) by (nonlinear_arith)
        requires
            x <= b,
            y <= b,
            t == x * x + y * y,
    ;
    assert(l <= 2 * b) by (nonlinear_arith)
        requires
            0x10_0000 * (l * l - t) <= t,
            t <= 2 * (b * b),
            b >= 0,
    ;
    assert(x <= 2 * l && y <= 2 * l) by (nonlinear_arith)
        requires
            -(t as int) <= 0x10_0000 * (l * l - t),
            t == x * x + y * y,
            x >= 0,
            y >= 0,
            l >= 0,
    ;
}

/// A sea zone whose coast lies around the middle of the map lies to the right of it.
pub proof fn sea_zones_in_the_middle_go_right(places: Seq<Point>, coast: Seq<RegionId>)
    requires
        coast.len() > 0,
        push_distance(places).finite(),
        ({
            let away = subtracted(centroid_of(places_of(places, coast)), centroid_of(places));
            square_of(away).at_most(Quantity { bits: 0x3586_37bd })
        }),
    ensures
        ({
            let off = centroid_of(places_of(places, coast));
            let center = zone_center(places, coast);
            center.x == sum_of(off.x, push_distance(places)) && center.y == sum_of(off.y, product_of(zero(), push_distance(places)))
        }),
{
    products_commute(one(), push_distance(places));
    times_one_changes_nothing(push_distance(places));
}

/// A unit at full strength is drawn at its own size, one with nothing at six tenths of it, and none at more than one and
/// a quarter.
pub proof fn sizes_of_units(unit: Unit, balance: Balance)
    requires
        balance.unit_manpower.finite(),
        zero().less(balance.unit_manpower),
        balance.unit_equipment.finite(),
        zero().less(balance.unit_equipment),
    ensures
        unit.manpower == balance.unit_manpower && unit.equipment == balance.unit_equipment ==> size_of(unit, balance) == one(),
        unit.manpower == zero() && unit.equipment == zero() ==> size_of(unit, balance) == (Quantity { bits: 0x3f19_999a }),
        !size_of(unit, balance).nan() ==> size_of(unit, balance).at_most(Quantity { bits: 0x3fa0_0000 }),
{
    let two = Quantity { bits: 0x4000_0000 };
    lemma_constants();
    lemma_itself(balance.unit_manpower);
    lemma_itself(balance.unit_equipment);
    lemma_itself(two);
    exact_results_stand(two);
    lemma_positive_counts(balance.unit_manpower);
    lemma_positive_counts(balance.unit_equipment);
    lemma_nothing_rounds_to_nothing(units(balance.unit_manpower));
    lemma_nothing_rounds_to_nothing(units(balance.unit_equipment));
    lemma_nothing_rounds_to_nothing(units(two));
    assert(units(zero()) * pow2(149) == 0 && units(zero()) == 0) by (nonlinear_arith)
        requires
            units(zero()) == 0 * pow2(0),
    ;
}

/// A quantity goes once into itself.
pub(crate) proof fn lemma_itself(q: Quantity)
    requires
        q.finite(),
        zero().less(q),
    ensures
        quotient_of(q, q) == one(),
{
    let (u, n) = (pow2(149), units(q));
    lemma_constants();
    lemma_positive_counts(q);
    lemma_nearest_scales(u, 1, n);
    assert(u * n == n * u && 1 * n == n) by (nonlinear_arith);
    exact_results_stand(one());
}

/// More men and more equipment never make a unit look smaller.
pub proof fn stronger_units_look_no_smaller(weaker: Unit, stronger: Unit, balance: Balance)
    requires
        weaker.manpower.at_most(stronger.manpower),
        weaker.equipment.at_most(stronger.equipment),
        zero().at_most(weaker.manpower),
        zero().at_most(weaker.equipment),
        stronger.manpower.at_most(far()),
        stronger.equipment.at_most(far()),
        one().at_most(balance.unit_manpower),
        balance.unit_manpower.finite(),
        one().at_most(balance.unit_equipment),
        balance.unit_equipment.finite(),
    ensures
        size_of(weaker, balance).at_most(size_of(stronger, balance)),
{
    let two = Quantity { bits: 0x4000_0000 };
    let (m, e) = (balance.unit_manpower, balance.unit_equipment);
    lemma_share_of_strength(weaker.manpower, m);
    lemma_share_of_strength(stronger.manpower, m);
    lemma_share_of_strength(weaker.equipment, e);
    lemma_share_of_strength(stronger.equipment, e);
    quotients_ascend(weaker.manpower, stronger.manpower, m);
    quotients_ascend(weaker.equipment, stronger.equipment, e);
    let (a, b) = (quotient_of(weaker.manpower, m), quotient_of(stronger.manpower, m));
    let (c, d) = (quotient_of(weaker.equipment, e), quotient_of(stronger.equipment, e));
    sums_ascend(a, b, c);
    sums_ascend(c, d, b);
    sums_commute(b, c);
    sums_commute(b, d);
    lemma_sum(a, c, 209);
    lemma_sum(b, d, 209);
    lemma_sum(b, c, 209);
    quotients_ascend(sum_of(a, c), sum_of(b, d), two);
    ranges_keep_order(
        quotient_of(sum_of(a, c), two),
        quotient_of(sum_of(b, d), two),
        Quantity { bits: 0x3f19_999a },
        Quantity { bits: 0x3fa0_0000 },
    );
}

proof fn lemma_share_of_strength(q: Quantity, all: Quantity)
    requires
        zero().at_most(q),
        q.at_most(far()),
        one().at_most(all),
        all.finite(),
    ensures
        small(q, 209),
        small(quotient_of(q, all), 209),
{
    let u = pow2(149);
    lemma_constants();
    lemma_in_reach_of_far(q);
    lemma_units_ascend(one(), all);
    assert(all.rank() > 0);
    assert(units(q) * u <= units(all) * pow2(209)) by (nonlinear_arith)
        requires
            units(q) <= pow2(209),
            u <= units(all),
    ;
    rounded_within(q.negative() != all.negative(), units(q) * u, units(all), 209);
}

/// The middle of one point is that point, and the middle of two points on opposite sides is the middle between them.
pub proof fn middles_of_one_and_two(p: Point)
    requires
        p.x.finite(),
        p.y.finite(),
        p.x.rank() != 0,
        p.y.rank() != 0,
    ensures
        centroid_of(seq![p]) == p,
        centroid_of(seq![p, Point { x: opposite(p.x), y: opposite(p.y) }]) == origin(),
{
    let q = Point { x: opposite(p.x), y: opposite(p.y) };
    reveal_with_fuel(total_of, 3);
    assert(seq![p].drop_last() =~= Seq::empty());
    assert(seq![p, q].drop_last() =~= seq![p]);
    sums_commute(zero(), p.x);
    sums_commute(zero(), p.y);
    adding_nothing_changes_nothing(p.x);
    adding_nothing_changes_nothing(p.y);
    lemma_opposites_count_alike(p.x);
    lemma_opposites_count_alike(p.y);
    lemma_over_one(p.x);
    lemma_over_one(p.y);
    lemma_constants();
    exact_results_stand(one());
    exact_results_stand(Quantity { bits: 0x4000_0000 });
    assert(whole(1) == one() && whole(2) == (Quantity { bits: 0x4000_0000 }));
    lemma_nothing_rounds_to_nothing(units(Quantity { bits: 0x4000_0000 }));
    assert(units(zero()) * pow2(149) == 0) by (nonlinear_arith)
        requires
            units(zero()) == 0 * pow2(0),
    ;
}

proof fn lemma_over_one(q: Quantity)
    requires
        q.finite(),
        q.rank() != 0,
    ensures
        quotient_of(q, one()) == q,
{
    let (u, n) = (pow2(149), units(q));
    lemma_constants();
    lemma_nearest_scales(n, 1, u);
    assert(1 * u == u) by (nonlinear_arith);
    exact_results_stand(q);
}

} // verus!
