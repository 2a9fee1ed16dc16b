//! What the colours of the map tell: more of what a mode shows is never shown as less.
use crate::arithmetic::{
    difference_of, exact_results_stand, hundred, lemma_nearest_scales, product_of, products_commute, quotient_of, sum_of,
    sums_commute, units,
};
use crate::arithmetic_laws::{
    adding_nothing_changes_nothing, lemma_nothing_rounds_to_nothing, lemma_positive_counts, lemma_sign_does_not_count, lemma_units_ascend,
    nothing_multiplied_is_nothing, products_ascend, quotients_ascend, sums_ascend, times_one_changes_nothing,
};
use crate::camera_laws::products_keep_their_side;
use crate::client::Ui;
use crate::map_mode::{
    band, capacities, cuts_of, good_after_row_click, good_rgb, industry_mix, legend_header_text, legend_of, mode_button_text, population_band_rgb, populations, shown_row, terrain_rgb,
    unrest_mix, Cuts, LegendRowView, MapMode, Share,
};
use crate::overlay::{
    construction_strength, flow_of, link_look_of, revealed, ring_paint, ring_shown, route_of, share_of, still_drawn, style_of,
    supply_look, BlockadeState, Depth, Flow, PaintView, PortBlockade, Route,
};
use crate::palette::{faction_rgb, neutral_rgb, one, rgb, share_is_between_0_and_1, Rgb};
use crate::quantity::{exponent, significand, zero, Quantity};
use crate::ranking::{in_order, order_is_total, ranked};
use crate::rounding::{rounded_within, rounding_is_near};
use crate::types::{Good, RegionId};
use crate::visuals::{color_of, delegated_tint, filled_for, holding_of, leader, nobody_leads_the_leader, political_fill, shape_of, tint_of, RegionFill, Shape};
use crate::world::{Branch, GOOD_COUNT, LinkKind, Region, Terrain, Unit, World};
use vstd::arithmetic::power2::{lemma2_to64, lemma_pow2_adds, lemma_pow2_pos, pow2};
use vstd::prelude::*;

verus! {

proof fn lemma_hundred()
    ensures
        hundred() == (Quantity { bits: 0x42c8_0000 }),
        units(hundred()) == 100 * pow2(149),
        units(one()) == pow2(149),
        quotient_of(hundred(), hundred()) == one(),
{
    let u = pow2(149);
    assert(significand(hundred().bits) == 0xc8_0000 && exponent(hundred().bits) == -17);
    assert(significand(one().bits) == 0x80_0000 && exponent(one().bits) == -23);
    lemma2_to64();
    lemma_pow2_adds(17, 132);
    lemma_pow2_adds(23, 126);
    let p = pow2(132);
    assert(0xc8_0000 * p == 100 * (0x2_0000 * p)) by (nonlinear_arith);
    lemma_pow2_pos(149);
    lemma_nearest_scales(u, 1, 100 * u);
    assert(u * (100 * u) == (100 * u) * u && 1 * (100 * u) == 100 * u) by (nonlinear_arith);
    exact_results_stand(one());
}

/// The unrest fill goes from the colour of calm to that of alarm, as far as the worse of two things says: the
/// unrest out of 100, and the devastation. It is never less far than either says, between none of the way
/// and all of it, and no farther than the worse.
pub proof fn the_worse_of_unrest_and_devastation_shows(unrest: Quantity, devastation: Quantity)
    requires
        unrest.finite(),
        devastation.finite(),
    ensures
        ({
            let (from, to, share) = unrest_mix(unrest, devastation);
            let part = quotient_of(unrest, Quantity { bits: 0x42c8_0000 });
            &&& from == rgb(20, 45, 30) && to == rgb(85, 15, 15)
            &&& zero().at_most(share) && share.at_most(one())
            &&& part.at_most(one()) ==> part.at_most(share)
            &&& one().at_most(part) ==> share == one()
            &&& devastation.at_most(one()) ==> devastation.at_most(share)
            &&& one().at_most(devastation) ==> share == one()
            &&& (share == part || share == devastation || share == zero() || share == one())
            &&& zero().less(share) ==> share.at_most(part) || share.at_most(devastation)
        }),
{
    lemma_hundred();
    lemma_quotient_is_finite(unrest);
}

/// A finite quantity out of 100 is finite.
proof fn lemma_quotient_is_finite(q: Quantity)
    requires
        q.finite(),
    ensures
        quotient_of(q, hundred()).finite(),
{
    lemma_hundred();
    lemma_pow2_pos(149);
    let most = Quantity { bits: 0x7f7f_ffff };
    let least = Quantity { bits: 0xff7f_ffff };
    let u = pow2(149);
    lemma_units_ascend(Quantity { bits: q.bits % 0x8000_0000 }, most);
    lemma_sign_does_not_count(q);
    assert(significand(most.bits) == 0xff_ffff && exponent(most.bits) == 104);
    lemma2_to64();
    lemma_pow2_adds(24, 253);
    lemma_pow2_adds(1, 276);
    lemma_pow2_pos(253);
    let (n, d) = (units(q) * u, 100 * u);
    assert(units(most) <= pow2(277)) by (nonlinear_arith)
        requires
            units(most) == 0xff_ffff * pow2(253),
            pow2(277) == 0x100_0000 * pow2(253),
            pow2(253) > 0,
    ;
    assert(n <= d * pow2(276)) by (nonlinear_arith)
        requires
            n == units(q) * u,
            d == 100 * u,
            units(q) <= pow2(277),
            pow2(277) == 2 * pow2(276),
            u > 0,
            pow2(276) >= 0,
    ;
    rounded_within(q.negative() != hundred().negative(), n, d, 276);
}

/// The unrest fill never goes less far where the unrest or the devastation rises.
pub proof fn more_unrest_never_looks_calmer(less_unrest: Quantity, more_unrest: Quantity, less_devastation: Quantity, more_devastation: Quantity)
    requires
        less_unrest.finite(),
        more_unrest.finite(),
        less_devastation.finite(),
        more_devastation.finite(),
        less_unrest.at_most(more_unrest),
        less_devastation.at_most(more_devastation),
    ensures
        unrest_mix(less_unrest, less_devastation).2.at_most(unrest_mix(more_unrest, more_devastation).2),
{
    lemma_hundred();
    quotients_ascend(less_unrest, more_unrest, hundred());
    lemma_quotient_is_finite(less_unrest);
    lemma_quotient_is_finite(more_unrest);
}

/// Without devastation the unrest fill goes as far as the unrest is of 100, but for rounding.
pub proof fn unrest_shows_out_of_a_hundred(unrest: Quantity, devastation: Quantity)
    requires
        zero().less(unrest),
        unrest.at_most(Quantity { bits: 0x42c8_0000 }),
        devastation.at_most(zero()),
    ensures
        ({
            let off = 100 * units(unrest_mix(unrest, devastation).2) - units(unrest);
            -100 <= 2 * off <= 100 || -(units(unrest) as int) <= 0x100_0000 * off <= units(unrest)
        }),
{
    lemma_hundred();
    lemma_pow2_pos(149);
    lemma_quotient_is_finite(unrest);
    quotients_ascend(unrest, hundred(), hundred());
    let part = quotient_of(unrest, hundred());
    let u = pow2(149);
    let (n, d) = (units(unrest) * u, 100 * u);
    lemma_units_ascend(unrest, hundred());
    lemma2_to64();
    lemma_pow2_adds(23, 126);
    assert(n <= d * pow2(149)) by (nonlinear_arith)
        requires
            n == units(unrest) * u,
            d == 100 * u,
            units(unrest) <= 100 * pow2(149),
            u > 0,
    ;
    rounded_within(false, n, d, 149);
    rounding_is_near(n, d);
    let v = units(part);
    let off = 100 * v - units(unrest);
    assert(v * d - n == off * u) by (nonlinear_arith)
        requires
            n == units(unrest) * u,
            d == 100 * u,
            off == 100 * v - units(unrest),
    ;
    if -(d as int) <= 2 * (v * d - n) <= d {
        assert(-100 <= 2 * off <= 100) by (nonlinear_arith)
            requires
                -(100 * u) <= 2 * (off * u) <= 100 * u,
                u > 0,
        ;
    } else {
        assert(-(units(unrest) as int) <= 0x100_0000 * off <= units(unrest)) by (nonlinear_arith)
            requires
                -(units(unrest) * u) <= 0x100_0000 * (off * u) <= units(unrest) * u,
                u > 0,
        ;
    }
    quotients_ascend(zero(), unrest, hundred());
    let share = unrest_mix(unrest, devastation).2;
    if share != part {
        assert(part.rank() == 0);
        assert(units(share) == 0 && units(part) == 0) by {
            lemma_zero_counts_nothing(share);
            lemma_zero_counts_nothing(part);
        }
    }
}

proof fn lemma_zero_counts_nothing(q: Quantity)
    requires
        q.rank() == 0,
    ensures
        units(q) == 0,
{
    assert(units(q) == 0) by (nonlinear_arith)
        requires
            units(q) == 0 * pow2(0),
    ;
}

/// How bright a colour is.
pub open spec fn brightness(c: Rgb) -> int {
    c.r + c.g + c.b
}

/// A region with more people is never filled darker, and brighter where it stands in a higher band.
pub proof fn more_people_shine_brighter(fewer: Quantity, more: Quantity, cuts: Cuts)
    requires
        fewer.at_most(more),
    ensures
        brightness(population_band_rgb(band(fewer, cuts))) <= brightness(population_band_rgb(band(more, cuts))),
        band(fewer, cuts) < band(more, cuts) ==> brightness(population_band_rgb(band(fewer, cuts))) < brightness(
            population_band_rgb(band(more, cuts)),
        ),
{
}

/// The colours of the five bands of the population, from the least to the most.
pub proof fn colours_of_the_population()
    ensures
        population_band_rgb(0) == rgb(16, 17, 20),
        population_band_rgb(1) == rgb(38, 32, 18),
        population_band_rgb(2) == rgb(62, 42, 14),
        population_band_rgb(3) == rgb(85, 55, 10),
        population_band_rgb(4) == rgb(100, 78, 8),
{
}

/// What lies above none of the cuts stands in the lowest band, what lies above all of them in the highest.
pub proof fn bands_go_by_the_cuts(value: Quantity, cuts: Cuts)
    requires
        cuts.first.at_most(cuts.second),
        cuts.second.at_most(cuts.third),
        cuts.third.at_most(cuts.fourth),
        !value.nan(),
    ensures
        value.at_most(cuts.first) <==> band(value, cuts) == 0,
        cuts.first.less(value) && value.at_most(cuts.second) <==> band(value, cuts) == 1,
        cuts.second.less(value) && value.at_most(cuts.third) <==> band(value, cuts) == 2,
        cuts.third.less(value) && value.at_most(cuts.fourth) <==> band(value, cuts) == 3,
        cuts.fourth.less(value) <==> band(value, cuts) == 4,
{
}

/// The cuts stand one, two, three and four fifths of the way through the values, put in order.
pub proof fn cuts_stand_at_the_fifths(values: Seq<Quantity>)
    requires
        0 < values.len(),
    ensures
        ({
            let n = values.len() as int;
            let list = ranked(values);
            &&& list.to_multiset() == values.to_multiset()
            &&& list.len() == n
            &&& forall|i: int, j: int|
                0 <= i < j < n ==> (#[trigger] list[i]).total_rank() <= (#[trigger] list[j]).total_rank()
            &&& cuts_of(values).first == list[n / 5]
            &&& cuts_of(values).second == list[2 * n / 5]
            &&& cuts_of(values).third == list[3 * n / 5]
            &&& cuts_of(values).fourth == list[4 * n / 5]
        }),
{
    order_is_total();
    values.lemma_sort_by_ensures(in_order());
    let list = ranked(values);
    values.to_multiset_ensures();
    list.to_multiset_ensures();
    let leq = in_order();
    assert forall|i: int, j: int| 0 <= i < j < values.len() implies (#[trigger] list[i]).total_rank() <= (#[trigger]
    list[j]).total_rank() by {
        assert(leq(list[i], list[j]));
    }
}

/// The colours of the terrains.
pub proof fn colours_of_the_terrains()
    ensures
        terrain_rgb(Terrain::Plain) == rgb(40, 62, 32),
        terrain_rgb(Terrain::Hill) == rgb(68, 58, 28),
        terrain_rgb(Terrain::Mountain) == rgb(56, 52, 50),
        terrain_rgb(Terrain::Urban) == rgb(74, 36, 30),
{
}

/// The colours of the goods.
pub proof fn colours_of_the_goods()
    ensures
        good_rgb(Good::Food) == rgb(30, 75, 30),
        good_rgb(Good::Energy) == rgb(95, 85, 20),
        good_rgb(Good::Steel) == rgb(55, 62, 70),
        good_rgb(Good::Machinery) == rgb(90, 55, 15),
        good_rgb(Good::Munitions) == rgb(85, 20, 20),
        good_rgb(Good::Arms) == rgb(60, 35, 80),
{
}

/// The colours of the factions, round and round.
pub proof fn colours_of_the_factions(i: nat)
    ensures
        faction_rgb(0) == rgb(85, 25, 25),
        faction_rgb(1) == rgb(25, 45, 85),
        faction_rgb(2) == rgb(30, 70, 35),
        faction_rgb(3) == rgb(90, 65, 15),
        faction_rgb(4) == rgb(60, 35, 80),
        faction_rgb(5) == rgb(20, 70, 70),
        faction_rgb(6) == rgb(85, 45, 65),
        faction_rgb(7) == rgb(55, 55, 55),
        faction_rgb(i + 8) == faction_rgb(i),
        neutral_rgb() == rgb(55, 58, 62),
{
}

/// A region without capacity for a good shows nothing of it. One with some shows a fifth of its colour in the
/// lowest band and a fifth more in each higher one, and so never less than a region with less.
pub proof fn more_industry_shows_more(less: Quantity, more: Quantity, good: Good, cuts: Cuts)
    requires
        zero().less(less),
        less.at_most(more),
    ensures
        industry_mix(zero(), good, cuts).to == industry_mix(zero(), good, cuts).from,
        industry_mix(less, good, cuts).from == rgb(14, 14, 16),
        industry_mix(less, good, cuts).to == good_rgb(good),
        industry_mix(less, good, cuts).share matches Share::Percent(p) && p == 20 * (band(less, cuts) + 1) && (industry_mix(
            more,
            good,
            cuts,
        ).share matches Share::Percent(q) && p <= q <= 100),
{
}

/// The political fill shows the owner's colour; the occupier's over it exactly where an occupation is under
/// way, as far as it has come; and scorched earth over that, the farther the more is devastated.
pub proof fn the_political_fill_tells_owner_and_occupier(region: Region)
    ensures
        ({
            let fill = political_fill(region);
            &&& fill.owner == faction_rgb(region.owner.0 as nat)
            &&& fill.scorched == rgb(16, 13, 10)
            &&& fill.occupier is Some <==> region.occupier is Some && zero().less(region.occupation)
            &&& fill.occupier matches Some(tint) ==> {
                &&& region.occupier matches Some(f) && tint.color == faction_rgb(f.0 as nat)
                &&& tint.share.at_most(one())
                &&& region.occupation.at_most(one()) ==> tint.share == region.occupation
                &&& one().less(region.occupation) ==> tint.share == one()
            }
        }),
{
}

/// More devastation scorches more: nothing where there is none, four fifths of the way where all is
/// devastated, and never less for more.
pub proof fn more_devastation_scorches_more(less: Region, more: Region)
    requires
        zero().at_most(less.devastation),
        less.devastation.at_most(more.devastation),
        more.devastation.at_most(one()),
    ensures
        political_fill(less).scorch.at_most(political_fill(more).scorch),
        less.devastation.rank() == 0 ==> political_fill(less).scorch.rank() == 0,
        less.devastation == one() ==> political_fill(less).scorch == (Quantity { bits: 0x3f4c_cccd }),
{
    let most = Quantity { bits: 0x3f4c_cccd };
    let (a, b) = (less.devastation, more.devastation);
    products_commute(a, most);
    products_commute(b, most);
    products_commute(one(), most);
    times_one_changes_nothing(most);
    if a.negative() {
        nothing_multiplied_is_nothing(a, most);
        if b.negative() {
            nothing_multiplied_is_nothing(b, most);
        } else {
            products_ascend(zero(), b, most);
            products_ascend(b, one(), most);
            products_commute(zero(), most);
            nothing_multiplied_is_nothing(zero(), most);
        }
    } else {
        products_ascend(a, b, most);
        if b.negative() {
            nothing_multiplied_is_nothing(b, most);
            nothing_multiplied_is_nothing(a, most);
        } else {
            products_ascend(b, one(), most);
        }
        products_ascend(zero(), a, most);
        products_commute(zero(), most);
        nothing_multiplied_is_nothing(zero(), most);
        if a.rank() == 0 {
            nothing_multiplied_is_nothing(a, most);
        }
    }
}

/// What is held shows in the colour of the one with the largest share, fading by what the share lacks; where
/// nobody has any, in the neutral colour.
pub proof fn the_holder_has_the_largest_share(shares: Seq<Quantity>, i: int)
    requires
        0 <= i < shares.len(),
        forall|k: int| 0 <= k < shares.len() ==> !(#[trigger] shares[k]).nan(),
    ensures
        ({
            let holding = holding_of(shares);
            &&& zero().less(shares[i]) ==> holding.fade is Some
            &&& holding.fade is None ==> holding.color == neutral_rgb()
            &&& holding.fade matches Some(fade) ==> exists|f: int|
                0 <= f < shares.len() && holding.color == faction_rgb(f as nat) && shares[i].at_most(#[trigger] shares[f])
                    && fade == difference_of(one(), shares[f])
        }),
{
    nobody_leads_the_leader(shares, i);
    if let Some((f, share)) = leader(shares) {
        assert(shares[f as int] == share);
    }
}

/// The legend of the terrains explains each by its own fill; that of the unrest explains both ends; that of
/// the supply explains what is drawn in its colours.
pub proof fn legends_explain_the_fills(world: World, good: Good)
    ensures
        ({
            let terrains = legend_of(MapMode::Terrain, world, good);
            &&& terrains.len() == 4
            &&& terrains[0].color == terrain_rgb(Terrain::Plain) && terrains[0].label == "平地"@
            &&& terrains[1].color == terrain_rgb(Terrain::Hill) && terrains[1].label == "丘陵"@
            &&& terrains[2].color == terrain_rgb(Terrain::Mountain) && terrains[2].label == "山地"@
            &&& terrains[3].color == terrain_rgb(Terrain::Urban) && terrains[3].label == "都市"@
        }),
        ({
            let unrest = legend_of(MapMode::Unrest, world, good);
            &&& unrest.len() == 2
            &&& unrest[0].color == unrest_mix(zero(), zero()).0 && unrest[0].label == "低い（安定）"@
            &&& unrest[1].color == unrest_mix(zero(), zero()).1 && unrest[1].label == "高い（不穏・荒廃）"@
        }),
        ({
            let supply = legend_of(MapMode::Supply, world, good);
            &&& supply.len() == 6
            &&& supply[0].color == rgb(100, 8, 5) && supply[0].label == "chokepoint（飽和）"@
            &&& supply[1].color == rgb(58, 52, 36) && supply[1].label == "active route"@
            &&& supply[2].color == rgb(35, 85, 35) && supply[2].label == "relay route（余力あり）"@
            &&& supply[3].color == rgb(85, 20, 45) && supply[3].label == "ring: starved"@
            &&& supply[4].color == rgb(20, 85, 55) && supply[4].label == "ring: full"@
            &&& supply[5].color == rgb(65, 25, 80) && supply[5].label == "ring: contested"@
        }),
        legend_of(MapMode::Political, world, good).len() == 0,
{
}

/// The legend of the population explains each band by its fill and by the cuts on either side of it.
pub proof fn the_legend_of_the_population_names_the_cuts(world: World, good: Good)
    ensures
        ({
            let rows = legend_of(MapMode::Population, world, good);
            let cuts = cuts_of(Seq::new(world.regions@.len(), |i: int| world.regions@[i].population));
            &&& rows.len() == 5
            &&& forall|i: int| 0 <= i < 5 ==> (#[trigger] rows[i]).color == population_band_rgb(i) && !rows[i].selected
            &&& rows[0].label == "非常に少（〜"@ + cuts.first.fixed(0) + "）"@
            &&& rows[1].label == "少（"@ + cuts.first.fixed(0) + "〜"@ + cuts.second.fixed(0) + "）"@
            &&& rows[2].label == "中（"@ + cuts.second.fixed(0) + "〜"@ + cuts.third.fixed(0) + "）"@
            &&& rows[3].label == "多（"@ + cuts.third.fixed(0) + "〜"@ + cuts.fourth.fixed(0) + "）"@
            &&& rows[4].label == "非常に多（"@ + cuts.fourth.fixed(0) + "〜）"@
        }),
{
}

/// The legend of the industry has a row for each good in its colour, with its name; the one that is shown
/// has its cuts instead. A click on a row shows the good of that row.
pub proof fn the_legend_of_the_industry_picks_goods(world: World, good: Good, row: int)
    requires
        0 <= row < GOOD_COUNT,
    ensures
        ({
            let picked = good_after_row_click(MapMode::Industry, good, row);
            let rows = legend_of(MapMode::Industry, world, good);
            let cuts = cuts_of(Seq::new(world.regions@.len(), |i: int| world.regions@[i].capacity@[good.position()]));
            &&& rows.len() == 6
            &&& rows[row].color == good_rgb(picked)
            &&& picked.position() == row
            &&& legend_of(MapMode::Industry, world, picked)[row].selected
            &&& rows[row].selected <==> picked == good
            &&& picked != good ==> rows[row].label == world.labels.goods@[row]@
            &&& picked == good ==> rows[row].label == cuts.first.fixed(3) + "/"@ + cuts.second.fixed(3) + "/"@ + cuts.third.fixed(
                3,
            ) + "/"@ + cuts.fourth.fixed(3)
        }),
        forall|mode: MapMode| mode != MapMode::Industry ==> #[trigger] good_after_row_click(mode, good, row) == good,
{
}

/// A row that is picked is marked by another sign than the rest, before its label.
pub proof fn picked_rows_are_marked(row: LegendRowView)
    ensures
        row.selected ==> shown_row(row) == "▶ "@ + row.label,
        !row.selected ==> shown_row(row) == "■ "@ + row.label,
{
    reveal_strlit("▶");
    reveal_strlit("■");
    reveal_strlit(" ");
    reveal_strlit("▶ ");
    reveal_strlit("■ ");
    assert("▶"@ + " "@ =~= "▶ "@);
    assert("■"@ + " "@ =~= "■ "@);
}

/// The names of the map modes, as they are written and as they are shown.
pub proof fn names_of_map_modes()
    ensures
        MapMode::of_key("political"@) == Some(MapMode::Political),
        MapMode::of_key("terrain"@) == Some(MapMode::Terrain),
        MapMode::of_key("population"@) == Some(MapMode::Population),
        MapMode::of_key("industry"@) == Some(MapMode::Industry),
        MapMode::of_key("unrest"@) == Some(MapMode::Unrest),
        MapMode::of_key("supply"@) == Some(MapMode::Supply),
        forall|key: Seq<char>| (#[trigger] MapMode::of_key(key)) is Some ==> key == "political"@ || key == "terrain"@ || key
            == "population"@ || key == "industry"@ || key == "unrest"@ || key == "supply"@,
        MapMode::Political.label_text() == "政治"@,
        MapMode::Terrain.label_text() == "地形"@,
        MapMode::Population.label_text() == "人口"@,
        MapMode::Industry.label_text() == "産業"@,
        MapMode::Unrest.label_text() == "不穏・荒廃"@,
        MapMode::Supply.label_text() == "補給網"@,
{
    MapMode::Political.key_names_one_mode();
    MapMode::Terrain.key_names_one_mode();
    MapMode::Population.key_names_one_mode();
    MapMode::Industry.key_names_one_mode();
    MapMode::Unrest.key_names_one_mode();
    MapMode::Supply.key_names_one_mode();
}

/// A link of the supply network is marked as a chokepoint exactly where it is saturated either way; else as cut
/// exactly where hardly anything gets through either way; else as active where supply is passed along it;
/// else as dead where nothing is known of it; else by how much of it is used.
pub proof fn links_show_what_hinders_the_supply(ab: Option<Flow>, ba: Option<Flow>, active: bool)
    ensures
        ({
            let look = supply_look(ab, ba, active);
            let saturated = (ab matches Some(f) && f.saturated) || (ba matches Some(f) && f.saturated);
            let cut = (ab matches Some(f) && f.capacity.at_most(Quantity { bits: 0x3a83_126f })) || (ba matches Some(f)
                && f.capacity.at_most(Quantity { bits: 0x3a83_126f }));
            &&& look.chokepoint == saturated && look.widened == saturated
            &&& look.cut == cut
            &&& saturated ==> look.paint == PaintView::Solid(rgb(100, 8, 5)) && look.depth == Depth::Chokepoint
            &&& !saturated && cut ==> look.paint == PaintView::Solid(rgb(80, 35, 10)) && look.depth == Depth::Highlight
            &&& !saturated && !cut && active ==> look.paint == PaintView::Solid(rgb(58, 52, 36)) && look.depth
                == Depth::Highlight
            &&& !saturated && !cut && !active ==> look.depth == Depth::Ordinary
            &&& !saturated && !cut && !active && ab is None && ba is None ==> look.paint == PaintView::Solid(rgb(30, 30, 33))
            &&& !saturated && !cut && !active && (ab is Some || ba is Some) ==> (look.paint matches PaintView::Between {
                from,
                to,
                share,
            } && from == rgb(20, 30, 20) && to == rgb(35, 85, 35) && zero().at_most(share) && share.at_most(one()))
        }),
{
}

/// A link that is neither hindered nor passed along shows the greater of its uses either way.
pub proof fn quiet_links_show_their_use(there: Flow, back: Flow)
    requires
        there.ratio.finite(),
        back.ratio.finite(),
        !there.saturated,
        !back.saturated,
        !there.capacity.at_most(Quantity { bits: 0x3a83_126f }),
        !back.capacity.at_most(Quantity { bits: 0x3a83_126f }),
    ensures
        supply_look(Some(there), Some(back), false).paint matches PaintView::Between { share, .. } && (
        there.ratio.at_most(one()) ==> there.ratio.at_most(share)) && (back.ratio.at_most(one()) ==> back.ratio.at_most(share))
            && (zero().less(share) ==> share.at_most(there.ratio) || share.at_most(back.ratio)),
        supply_look(Some(there), None, false).paint matches PaintView::Between { share, .. } && (zero().at_most(there.ratio)
            && there.ratio.at_most(one()) ==> share.rank() == there.ratio.rank()),
        supply_look(None, Some(back), false).paint matches PaintView::Between { share, .. } && (zero().at_most(back.ratio)
            && back.ratio.at_most(one()) ==> share.rank() == back.ratio.rank()),
{
}

/// Outside of the supply mode, and between the regions of different owners, a link looks as its kind does.
pub proof fn links_look_as_their_kind(mode: MapMode, world: World, routes: Seq<Route>, flows: Seq<Flow>, a: RegionId, b: RegionId, kind: LinkKind)
    requires
        mode != MapMode::Supply || world.regions@[a.0 as int].owner != world.regions@[b.0 as int].owner,
    ensures
        ({
            let look = link_look_of(mode, world, routes, flows, a, b, kind);
            &&& look.depth == Depth::Ordinary && !look.widened && !look.chokepoint && !look.cut
            &&& look.paint == match kind {
                LinkKind::Rail => PaintView::Solid(rgb(85, 85, 88)),
                LinkKind::Road => PaintView::Solid(rgb(60, 60, 62)),
                LinkKind::Tunnel => PaintView::Solid(rgb(70, 55, 35)),
                LinkKind::Strait => PaintView::Solid(rgb(35, 55, 85)),
                LinkKind::Sea => PaintView::Nothing,
            }
        }),
        style_of(LinkKind::Rail).0 == 5 && !style_of(LinkKind::Rail).2,
        style_of(LinkKind::Road).0 == 2 && !style_of(LinkKind::Road).2,
        style_of(LinkKind::Tunnel).0 == 3 && style_of(LinkKind::Tunnel).2,
        style_of(LinkKind::Strait).0 == 3 && style_of(LinkKind::Strait).2,
        style_of(LinkKind::Sea).0 == 1 && style_of(LinkKind::Sea).2,
{
}

/// A share is all where all there could be is there, none where nothing is, and never less for more.
pub proof fn shares_grow_with_the_part(less: Quantity, more: Quantity, all: Quantity)
    requires
        less.finite(),
        more.finite(),
        all.finite(),
        less.at_most(more),
        more.at_most(all),
    ensures
        share_of(less, all).at_most(share_of(more, all)),
        zero().less(all) ==> share_of(all, all) == one(),
        !zero().less(all) ==> share_of(less, all) == zero(),
        less.rank() == 0 ==> share_of(less, all).rank() == 0,
{
    if zero().less(all) {
        quotients_ascend(less, more, all);
        quotients_ascend(more, all, all);
        lemma_all_of_all(all);
        lemma_positive_counts(all);
        if less.rank() == 0 {
            lemma_zero_counts_nothing(less);
            assert(units(less) * pow2(149) == 0) by (nonlinear_arith)
                requires
                    units(less) == 0,
            ;
            lemma_nothing_rounds_to_nothing(units(all));
        }
    }
}

proof fn lemma_all_of_all(all: Quantity)
    requires
        all.finite(),
        zero().less(all),
    ensures
        quotient_of(all, all) == one(),
{
    lemma_hundred();
    lemma_positive_counts(all);
    lemma_nearest_scales(pow2(149), 1, units(all));
    assert(pow2(149) * units(all) == units(all) * pow2(149) && 1 * units(all) == units(all)) by (nonlinear_arith);
    exact_results_stand(one());
}

/// The ring of a contested region has a colour of its own; any other goes from starved to full with the
/// supply that can arrive.
pub proof fn rings_show_what_arrives(route: Route, throughput: Quantity)
    ensures
        route.contested ==> ring_paint(route, throughput) == PaintView::Solid(rgb(65, 25, 80)),
        !route.contested ==> ring_paint(route, throughput) == (PaintView::Between {
            from: rgb(85, 20, 45),
            to: rgb(20, 85, 55),
            share: share_of(route.cap, throughput),
        }),
{
}

/// What is known of a link or of a region is the last word on it.
pub proof fn the_last_word_counts(flows: Seq<Flow>, routes: Seq<Route>, flow: Flow, route: Route, from: RegionId, to: RegionId, region: RegionId)
    ensures
        flow.from == from && flow.to == to ==> flow_of(flows.push(flow), from, to) == Some(flow),
        !(flow.from == from && flow.to == to) ==> flow_of(flows.push(flow), from, to) == flow_of(flows, from, to),
        route.region == region ==> route_of(routes.push(route), region) == Some(route),
        route.region != region ==> route_of(routes.push(route), region) == route_of(routes, region),
        flow_of(Seq::empty(), from, to) is None,
        route_of(Seq::empty(), region) is None,
{
    assert(flows.push(flow).drop_last() =~= flows);
    assert(routes.push(route).drop_last() =~= routes);
}

/// The shapes of the branches on the map.
pub proof fn shapes_of_the_branches()
    ensures
        shape_of(Some(Branch::Infantry)) == Shape::Triangle,
        shape_of(Some(Branch::Armour)) == Shape::Square,
        shape_of(Some(Branch::Artillery)) == Shape::Disc,
        shape_of(None) == Shape::Triangle,
{
}

/// Every map mode shows its own thing: the political map and the supply map the holders, the others the terrain, the
/// people, the industry of the picked good, and the unrest with the devastation.
pub proof fn fills_follow_the_mode(region: Region, good: Good, world: World, fill: RegionFill)
    ensures
        filled_for(MapMode::Political, region, good, world, fill) <==> (fill matches RegionFill::Political(f) && f@
            == political_fill(region)),
        filled_for(MapMode::Supply, region, good, world, fill) <==> filled_for(MapMode::Political, region, good, world, fill),
        filled_for(MapMode::Terrain, region, good, world, fill) <==> fill == RegionFill::Solid(terrain_rgb(region.terrain)),
        filled_for(MapMode::Population, region, good, world, fill) <==> fill == RegionFill::Solid(
            population_band_rgb(band(region.population, cuts_of(populations(world)))),
        ),
        filled_for(MapMode::Industry, region, good, world, fill) <==> fill == RegionFill::Mixed(
            industry_mix(region.capacity@[good.position()], good, cuts_of(capacities(world, good))),
        ),
        filled_for(MapMode::Unrest, region, good, world, fill) <==> (fill matches RegionFill::Mixed(mix) && (mix.share matches
            Share::Of(share) && (mix.from, mix.to, share@) == (
            rgb(20, 45, 30),
            rgb(85, 15, 15),
            unrest_mix(region.unrest, region.devastation).2,
        ))),
{
}

/// What the populations and capacities are those of: the regions of the world, in order.
pub proof fn values_come_from_the_regions(world: World, good: Good, i: int)
    requires
        0 <= i < world.regions@.len(),
    ensures
        populations(world).len() == world.regions@.len(),
        populations(world)[i] == world.regions@[i].population,
        capacities(world, good).len() == world.regions@.len(),
        capacities(world, good)[i] == world.regions@[i].capacity@[good.position()],
{
}

/// The button of the map mode names the mode and its key, and every legend its subject.
pub proof fn headings_of_the_map(mode: MapMode, world: World, good: Good)
    ensures
        mode_button_text(mode) == "地図: "@ + mode.label_text() + " [M]"@,
        legend_header_text(MapMode::Political, world, good) == "所属勢力の色（占領・戦災で変色）"@,
        legend_header_text(MapMode::Terrain, world, good) == "地形（防御力・移動コストの土台）"@,
        legend_header_text(MapMode::Population, world, good) == "人口の分布（現状から自動区分）"@,
        legend_header_text(MapMode::Industry, world, good) == world.labels.goods@[good.position()]@
            + "：明るさ=実効生産力"@,
        legend_header_text(MapMode::Unrest, world, good) == "不穏度と戦災、悪い方を表示"@,
        legend_header_text(MapMode::Supply, world, good) == "供給路と詰まり箇所（旧Lキー表示）"@,
{
}

/// The rings show on the supply map and on no other, each for the route to its own region.
pub proof fn rings_belong_to_the_supply_map(mode: MapMode, world: World, routes: Seq<Route>, region: RegionId)
    ensures
        ring_shown(mode, world, routes, region) is Some <==> mode == MapMode::Supply,
        route_of(routes, region) is None ==> ring_shown(MapMode::Supply, world, routes, region) == Some(None::<PaintView>),
        route_of(routes, region) matches Some(route) ==> ring_shown(MapMode::Supply, world, routes, region) == Some(
            Some(ring_paint(route, world.region_at(region).throughput)),
        ),
{
}

/// Construction work shows where there is any, from a bit more than a third of the strength on, and no less when it has
/// come further.
pub proof fn construction_shows_how_far_it_has_come(earlier: Region, later: Region)
    requires
        earlier.construction is Some,
        later.construction is Some,
        earlier.construction->0.required == later.construction->0.required,
        earlier.construction->0.required.finite(),
        zero().less(earlier.construction->0.required),
        zero().at_most(earlier.construction->0.invested),
        earlier.construction->0.invested.at_most(later.construction->0.invested),
        later.construction->0.invested.at_most(later.construction->0.required),
    ensures
        ({
            let (least, more) = (Quantity { bits: 0x3eb3_3333 }, Quantity { bits: 0x3f0c_cccd });
            &&& construction_strength(earlier) is Some && construction_strength(later) is Some
            &&& construction_strength(earlier)->0.at_most(construction_strength(later)->0)
            &&& earlier.construction->0.invested.rank() == 0 ==> construction_strength(earlier) == Some(least)
            &&& later.construction->0.invested == later.construction->0.required ==> construction_strength(later) == Some(
                sum_of(least, more),
            )
        }),
{
    let (least, more) = (Quantity { bits: 0x3eb3_3333 }, Quantity { bits: 0x3f0c_cccd });
    let (a, b, all) = (
        earlier.construction->0.invested,
        later.construction->0.invested,
        earlier.construction->0.required,
    );
    shares_grow_with_the_part(a, b, all);
    let (s, t) = (share_of(a, all), share_of(b, all));
    share_is_between_0_and_1(quotient_of(a, all));
    share_is_between_0_and_1(quotient_of(b, all));
    let (p, q) = (product_of(more, s), product_of(more, t));
    products_commute(more, s);
    products_commute(more, t);
    products_keep_their_side(s, more);
    products_keep_their_side(t, more);
    if s.rank() == 0 {
        nothing_multiplied_is_nothing(s, more);
        lemma_zero_counts_nothing(p);
    } else {
        products_ascend(s, t, more);
    }
    times_one_changes_nothing(more);
    lemma_part_is_finite(s);
    lemma_part_is_finite(t);
    sums_commute(least, p);
    sums_commute(least, q);
    sums_ascend(p, q, least);
    adding_nothing_changes_nothing(least);
    if s.rank() == 0 {
        exact_results_stand(least);
        lemma_positive_counts(least);
    }
}

/// A share of a constant stays finite.
proof fn lemma_part_is_finite(s: Quantity)
    requires
        zero().at_most(s),
        s.at_most(one()),
    ensures
        product_of(Quantity { bits: 0x3f0c_cccd }, s).finite(),
{
    let more = Quantity { bits: 0x3f0c_cccd };
    times_one_changes_nothing(more);
    products_commute(more, s);
    products_keep_their_side(s, more);
    if s.rank() == 0 {
        nothing_multiplied_is_nothing(s, more);
    } else {
        products_ascend(s, one(), more);
    }
}

/// Where nothing is built, no mark shows.
pub proof fn nothing_built_is_not_marked(region: Region)
    ensures
        construction_strength(region) is None <==> region.construction is None,
{
}

/// The lines of a blockade show exactly while its port or one of its causes is selected.
pub proof fn blockades_show_when_selected(blockade: PortBlockade, ui: Ui)
    ensures
        ui.selected_region == Some(blockade.region) ==> revealed(blockade, ui),
        ui.selected_sea_zone matches Some(zone) && blockade.causes@.contains(zone) ==> revealed(blockade, ui),
        revealed(blockade, ui) ==> ui.selected_region == Some(blockade.region) || (ui.selected_sea_zone is Some
            && blockade.causes@.contains(ui.selected_sea_zone->0)),
{
    if let Some(zone) = ui.selected_sea_zone {
        if blockade.causes@.contains(zone) {
            let i = blockade.causes@.index_of(zone);
            assert(ui.selected_sea_zone == Some(blockade.causes@[i]));
        }
    }
}

/// The blockades are drawn again exactly if something about them or the selection changed.
pub proof fn blockades_are_redrawn_on_change(state: BlockadeState, blockades: Seq<PortBlockade>, ui: Ui)
    ensures
        !still_drawn(None, blockades, ui),
        still_drawn(Some(state), blockades, ui) <==> {
            &&& state.selected_region == ui.selected_region
            &&& state.selected_sea_zone == ui.selected_sea_zone
            &&& state.blockades@.len() == blockades.len()
            &&& forall|i: int|
                0 <= i < blockades.len() ==> (#[trigger] state.blockades@[i]).region == blockades[i].region
                    && state.blockades@[i].causes@ == blockades[i].causes@
        },
{
}

/// A unit has the colour of its owner, and one handed over to an agent goes nearly two thirds of the way to a bright colour.
pub proof fn units_show_their_owner_and_delegation(unit: Unit)
    ensures
        color_of(unit) == faction_rgb(unit.owner.0 as nat),
        tint_of(unit) is Some <==> unit.delegated,
        tint_of(unit) matches Some(tint) ==> tint == delegated_tint(),
        delegated_tint().color == rgb(98, 98, 95),
        delegated_tint().share == (Quantity { bits: 0x3f26_6666 }),
{
}

} // verus!
