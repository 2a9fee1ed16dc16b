//! Map modes: which of a region's properties its fill shows, and the legend that explains it.
use crate::arithmetic::{hundred, larger, quotient_of};
use crate::overlay::{active_route_rgb, chokepoint_rgb, relay_full_rgb, ring_contested_rgb, ring_full_rgb, ring_starved_rgb};
use crate::palette::{clamped, rgb, Rgb, Unit01};
use crate::quantity::{zero, Quantity};
use crate::ranking::{at_percent, percentile, sorted};
use crate::text::same_text;
use crate::types::Good;
use crate::world::{Region, Terrain, World, GOOD_COUNT};
use vstd::prelude::*;

verus! {

/// What the fill of a region shows.
#[derive(Clone, Copy, Debug, PartialEq, Eq, Structural)]
pub enum MapMode {
    Political,
    Terrain,
    Population,
    Industry,
    Unrest,
    Supply,
}

/// How many rows the legend has room for.
pub const MODE_LEGEND_ROWS: usize = 6;

impl MapMode {
    /// The names of all modes, in the order in which they follow each other.
    pub const ALL_KEYS: [&'static str; 6] = ["political", "terrain", "population", "industry", "unrest", "supply"];

    /// The name of a mode.
    pub open spec fn key_text(self) -> Seq<char> {
        match self {
            MapMode::Political => "political"@,
            MapMode::Terrain => "terrain"@,
            MapMode::Population => "population"@,
            MapMode::Industry => "industry"@,
            MapMode::Unrest => "unrest"@,
            MapMode::Supply => "supply"@,
        }
    }

    /// The mode that a name stands for, if any.
    pub open spec fn of_key(key: Seq<char>) -> Option<MapMode> {
        if key == "political"@ {
            Some(MapMode::Political)
        } else if key == "terrain"@ {
            Some(MapMode::Terrain)
        } else if key == "population"@ {
            Some(MapMode::Population)
        } else if key == "industry"@ {
            Some(MapMode::Industry)
        } else if key == "unrest"@ {
            Some(MapMode::Unrest)
        } else if key == "supply"@ {
            Some(MapMode::Supply)
        } else {
            None
        }
    }

    /// The name of a mode.
    pub fn key(self) -> (key: &'static str)
        ensures
            key@ == self.key_text(),
    {
        match self {
            MapMode::Political => "political",
            MapMode::Terrain => "terrain",
            MapMode::Population => "population",
            MapMode::Industry => "industry",
            MapMode::Unrest => "unrest",
            MapMode::Supply => "supply",
        }
    }

    /// Looks a name up.
    pub fn from_key(key: &str) -> (mode: Option<MapMode>)
        ensures
            mode == MapMode::of_key(key@),
    {
        if same_text(key, "political") {
            Some(MapMode::Political)
        } else if same_text(key, "terrain") {
            Some(MapMode::Terrain)
        } else if same_text(key, "population") {
            Some(MapMode::Population)
        } else if same_text(key, "industry") {
            Some(MapMode::Industry)
        } else if same_text(key, "unrest") {
            Some(MapMode::Unrest)
        } else if same_text(key, "supply") {
            Some(MapMode::Supply)
        } else {
            None
        }
    }

    /// Every mode is found again under its own name.
    pub proof fn key_names_one_mode(self)
        ensures
            MapMode::of_key(self.key_text()) == Some(self),
    {
        reveal_strlit("political");
        assert("political"@.len() == 9);
        reveal_strlit("terrain");
        assert("terrain"@.len() == 7);
        reveal_strlit("population");
        assert("population"@.len() == 10);
        reveal_strlit("industry");
        assert("industry"@.len() == 8);
        reveal_strlit("unrest");
        assert("unrest"@.len() == 6);
        reveal_strlit("supply");
        assert("supply"@.len() == 6);
        assert("unrest"@[0] != "supply"@[0]);
    }

    /// The mode after this one; after the last the first again.
    pub open spec fn following(self) -> MapMode {
        match self {
            MapMode::Political => MapMode::Terrain,
            MapMode::Terrain => MapMode::Population,
            MapMode::Population => MapMode::Industry,
            MapMode::Industry => MapMode::Unrest,
            MapMode::Unrest => MapMode::Supply,
            MapMode::Supply => MapMode::Political,
        }
    }

    /// The mode after this one; after the last the first again.
    pub fn next(self) -> (mode: MapMode)
        ensures
            mode == self.following(),
    {
        match self {
            MapMode::Political => MapMode::Terrain,
            MapMode::Terrain => MapMode::Population,
            MapMode::Population => MapMode::Industry,
            MapMode::Industry => MapMode::Unrest,
            MapMode::Unrest => MapMode::Supply,
            MapMode::Supply => MapMode::Political,
        }
    }

    /// Stepping through every mode once comes back to where it started.
    pub proof fn modes_form_a_cycle(self)
        ensures
            self.following().following().following().following().following().following() == self,
            forall|other: MapMode| #[trigger] self.reaches(other, 5),
    {
        reveal_with_fuel(MapMode::reaches, 6);
        assert forall|other: MapMode| #[trigger] self.reaches(other, 5) by {
            reveal_with_fuel(MapMode::reaches, 6);
        }
    }

    /// Whether another mode comes up within a number of steps.
    pub open spec fn reaches(self, other: MapMode, steps: nat) -> bool
        decreases steps,
    {
        self == other || (steps > 0 && self.following().reaches(other, (steps - 1) as nat))
    }

    /// The name shown to the player.
    pub open spec fn label_text(self) -> Seq<char> {
        match self {
            MapMode::Political => "政治"@,
            MapMode::Terrain => "地形"@,
            MapMode::Population => "人口"@,
            MapMode::Industry => "産業"@,
            MapMode::Unrest => "不穏・荒廃"@,
            MapMode::Supply => "補給網"@,
        }
    }

    /// The name shown to the player.
    pub fn label(self) -> (label: &'static str)
        ensures
            label@ == self.label_text(),
    {
        match self {
            MapMode::Political => "政治",
            MapMode::Terrain => "地形",
            MapMode::Population => "人口",
            MapMode::Industry => "産業",
            MapMode::Unrest => "不穏・荒廃",
            MapMode::Supply => "補給網",
        }
    }
}

impl Default for MapMode {
    fn default() -> (mode: MapMode)
        ensures
            mode == MapMode::Political,
    {
        MapMode::Political
    }
}

/// What the button that changes the mode says.
pub open spec fn mode_button_text(mode: MapMode) -> Seq<char> {
    "地図: "@ + mode.label_text() + " [M]"@
}

/// Writes what the button that changes the mode says.
pub fn mode_button(mode: MapMode) -> (text: String)
    ensures
        text@ == mode_button_text(mode),
{
    let mut text = "地図: ".to_owned();
    text.append(mode.label());
    text.append(" [M]");
    text
}

/// The fill for a terrain.
pub open spec fn terrain_rgb(terrain: Terrain) -> Rgb {
    match terrain {
        Terrain::Plain => rgb(40, 62, 32),
        Terrain::Hill => rgb(68, 58, 28),
        Terrain::Mountain => rgb(56, 52, 50),
        Terrain::Urban => rgb(74, 36, 30),
    }
}

/// The fill for a terrain.
pub fn terrain_fill(terrain: Terrain) -> (color: Rgb)
    ensures
        color == terrain_rgb(terrain),
{
    match terrain {
        Terrain::Plain => Rgb { r: 40, g: 62, b: 32 },
        Terrain::Hill => Rgb { r: 68, g: 58, b: 28 },
        Terrain::Mountain => Rgb { r: 56, g: 52, b: 50 },
        Terrain::Urban => Rgb { r: 74, g: 36, b: 30 },
    }
}

/// Different terrains have different fills.
pub proof fn terrain_fills_differ(a: Terrain, b: Terrain)
    requires
        a != b,
    ensures
        terrain_rgb(a) != terrain_rgb(b),
{
}

/// The four values that divide a list of quantities into five bands.
#[derive(Clone, Copy, Debug, PartialEq, Eq, Structural)]
pub struct Cuts {
    pub first: Quantity,
    pub second: Quantity,
    pub third: Quantity,
    pub fourth: Quantity,
}

/// The values at one to four fifths of the way through the sorted quantities; all 0 where there are
/// none.
pub open spec fn cuts_of(values: Seq<Quantity>) -> Cuts {
    if values.len() == 0 {
        Cuts { first: zero(), second: zero(), third: zero(), fourth: zero() }
    } else {
        Cuts {
            first: percentile(values, 20),
            second: percentile(values, 40),
            third: percentile(values, 60),
            fourth: percentile(values, 80),
        }
    }
}

/// Divides a list of quantities into five bands of like size.
pub fn quintile_cuts(values: &Vec<Quantity>) -> (cuts: Cuts)
    ensures
        cuts == cuts_of(values@),
{
    if values.len() == 0 {
        let zero = Quantity { bits: 0 };
        return Cuts { first: zero, second: zero, third: zero, fourth: zero };
    }
    let list = sorted(values);
    Cuts {
        first: at_percent(&list, 20),
        second: at_percent(&list, 40),
        third: at_percent(&list, 60),
        fourth: at_percent(&list, 80),
    }
}

/// The cuts are some of the quantities themselves, in ascending order: no number is made up.
pub proof fn cuts_are_values(values: Seq<Quantity>)
    requires
        0 < values.len(),
    ensures
        values.contains(cuts_of(values).first),
        values.contains(cuts_of(values).second),
        values.contains(cuts_of(values).third),
        values.contains(cuts_of(values).fourth),
        cuts_of(values).first.total_rank() <= cuts_of(values).second.total_rank(),
        cuts_of(values).second.total_rank() <= cuts_of(values).third.total_rank(),
        cuts_of(values).third.total_rank() <= cuts_of(values).fourth.total_rank(),
{
    crate::ranking::percentile_is_a_value(values, 20);
    crate::ranking::percentile_is_a_value(values, 40);
    crate::ranking::percentile_is_a_value(values, 60);
    crate::ranking::percentile_is_a_value(values, 80);
    crate::ranking::percentiles_ascend(values, 20, 40);
    crate::ranking::percentiles_ascend(values, 40, 60);
    crate::ranking::percentiles_ascend(values, 60, 80);
}

/// The band of a quantity: how many of the cuts it lies above.
pub open spec fn band(value: Quantity, cuts: Cuts) -> int {
    (if cuts.first.less(value) { 1int } else { 0 }) + (if cuts.second.less(value) { 1int } else { 0 }) + (
    if cuts.third.less(value) { 1int } else { 0 }) + (if cuts.fourth.less(value) { 1int } else { 0 })
}

/// The band of a quantity: how many of the cuts it lies above.
pub fn band_of(value: Quantity, cuts: Cuts) -> (i: usize)
    ensures
        i == band(value, cuts),
        i <= 4,
{
    let mut i: usize = 0;
    if cuts.first.is_less(value) {
        i += 1;
    }
    if cuts.second.is_less(value) {
        i += 1;
    }
    if cuts.third.is_less(value) {
        i += 1;
    }
    if cuts.fourth.is_less(value) {
        i += 1;
    }
    i
}

/// A larger quantity stands in no lower band.
pub proof fn bands_ascend(low: Quantity, high: Quantity, cuts: Cuts)
    requires
        low.at_most(high),
    ensures
        0 <= band(low, cuts) <= band(high, cuts) <= 4,
{
}

/// The populations of all regions.
pub open spec fn populations(world: World) -> Seq<Quantity> {
    Seq::new(world.regions@.len(), |i: int| world.regions@[i].population)
}

/// The bands of the current populations.
pub fn population_thresholds(world: &World) -> (cuts: Cuts)
    ensures
        cuts == cuts_of(populations(*world)),
{
    let mut values: Vec<Quantity> = Vec::new();
    let mut i: usize = 0;
    while i < world.regions.len()
        invariant
            i <= world.regions.len(),
            values.len() == i,
            forall|k: int| 0 <= k < i ==> #[trigger] values@[k] == world.regions@[k].population,
        decreases world.regions.len() - i,
    {
        values.push(world.regions[i].population);
        i += 1;
    }
    assert(values@ =~= populations(*world));
    quintile_cuts(&values)
}

/// The fill for a band of the population.
pub open spec fn population_band_rgb(i: int) -> Rgb {
    if i == 0 {
        rgb(16, 17, 20)
    } else if i == 1 {
        rgb(38, 32, 18)
    } else if i == 2 {
        rgb(62, 42, 14)
    } else if i == 3 {
        rgb(85, 55, 10)
    } else {
        rgb(100, 78, 8)
    }
}

fn population_band_color(i: usize) -> (color: Rgb)
    ensures
        color == population_band_rgb(i as int),
{
    match i {
        0 => Rgb { r: 16, g: 17, b: 20 },
        1 => Rgb { r: 38, g: 32, b: 18 },
        2 => Rgb { r: 62, g: 42, b: 14 },
        3 => Rgb { r: 85, g: 55, b: 10 },
        _ => Rgb { r: 100, g: 78, b: 8 },
    }
}

/// The fill for a population.
pub fn population_fill(population: Quantity, cuts: Cuts) -> (color: Rgb)
    ensures
        color == population_band_rgb(band(population, cuts)),
{
    population_band_color(band_of(population, cuts))
}

/// The capacities of all regions for a good.
pub open spec fn capacities(world: World, good: Good) -> Seq<Quantity> {
    Seq::new(world.regions@.len(), |i: int| world.regions@[i].capacity@[good.position()])
}

/// The bands of the current capacities for a good.
pub fn industry_thresholds(world: &World, good: Good) -> (cuts: Cuts)
    requires
        world.valid(),
    ensures
        cuts == cuts_of(capacities(*world, good)),
{
    let mut values: Vec<Quantity> = Vec::new();
    let mut i: usize = 0;
    while i < world.regions.len()
        invariant
            world.valid(),
            i <= world.regions.len(),
            values.len() == i,
            forall|k: int| 0 <= k < i ==> #[trigger] values@[k] == world.regions@[k].capacity@[good.position()],
        decreases world.regions.len() - i,
    {
        assert(world.regions@[i as int].capacity@.len() == GOOD_COUNT);
        values.push(world.regions[i].capacity[good.index()]);
        i += 1;
    }
    assert(values@ =~= capacities(*world, good));
    quintile_cuts(&values)
}

/// The hue of a good.
pub open spec fn good_rgb(good: Good) -> Rgb {
    match good {
        Good::Food => rgb(30, 75, 30),
        Good::Energy => rgb(95, 85, 20),
        Good::Steel => rgb(55, 62, 70),
        Good::Machinery => rgb(90, 55, 15),
        Good::Munitions => rgb(85, 20, 20),
        Good::Arms => rgb(60, 35, 80),
    }
}

/// The hue of a good.
pub fn good_hue(good: Good) -> (color: Rgb)
    ensures
        color == good_rgb(good),
{
    match good {
        Good::Food => Rgb { r: 30, g: 75, b: 30 },
        Good::Energy => Rgb { r: 95, g: 85, b: 20 },
        Good::Steel => Rgb { r: 55, g: 62, b: 70 },
        Good::Machinery => Rgb { r: 90, g: 55, b: 15 },
        Good::Munitions => Rgb { r: 85, g: 20, b: 20 },
        Good::Arms => Rgb { r: 60, g: 35, b: 80 },
    }
}

/// A colour on the way from one to another.
#[derive(Clone, Copy, Debug, PartialEq, Eq, Structural)]
pub struct Mix {
    pub from: Rgb,
    pub to: Rgb,
    pub share: Share,
}

/// How far the way from one colour to another has been gone.
#[derive(Clone, Copy, Debug, PartialEq, Eq, Structural)]
pub enum Share {
    Percent(u8),
    Of(Unit01),
}

/// The fill of a region without any industry of the kind shown.
pub open spec fn industry_none_rgb() -> Rgb {
    rgb(14, 14, 16)
}

/// How much of a good's hue a band of its capacity shows.
pub open spec fn industry_band_percent(i: int) -> int {
    20 * (i + 1)
}

/// The fill for a capacity of a good.
pub open spec fn industry_mix(capacity: Quantity, good: Good, cuts: Cuts) -> Mix {
    if capacity.positive() || capacity.nan() {
        Mix {
            from: industry_none_rgb(),
            to: good_rgb(good),
            share: Share::Percent(industry_band_percent(band(capacity, cuts)) as u8),
        }
    } else {
        Mix { from: industry_none_rgb(), to: industry_none_rgb(), share: Share::Percent(0) }
    }
}

/// The fill of a region for its capacity of a good.
pub fn industry_fill(region: &Region, good: Good, cuts: Cuts) -> (fill: Mix)
    requires
        region.capacity@.len() == GOOD_COUNT,
    ensures
        fill == industry_mix(region.capacity@[good.position()], good, cuts),
{
    let capacity = region.capacity[good.index()];
    let none = Rgb { r: 14, g: 14, b: 16 };
    if capacity.is_at_most(Quantity { bits: 0 }) {
        return Mix { from: none, to: none, share: Share::Percent(0) };
    }
    let band = band_of(capacity, cuts);
    Mix { from: none, to: good_hue(good), share: Share::Percent((20 * (band + 1)) as u8) }
}

/// The fill of a calm region.
pub open spec fn unrest_calm_rgb() -> Rgb {
    rgb(20, 45, 30)
}

/// The fill of a region out of hand.
pub open spec fn unrest_alarm_rgb() -> Rgb {
    rgb(85, 15, 15)
}

/// The fill of a region for its unrest and devastation, whichever is worse.
pub open spec fn unrest_mix(unrest: Quantity, devastation: Quantity) -> (Rgb, Rgb, Quantity) {
    (unrest_calm_rgb(), unrest_alarm_rgb(), clamped(larger(quotient_of(unrest, hundred()), devastation)))
}

/// The fill of a region for its unrest and devastation, whichever is worse.
pub fn unrest_fill(region: &Region) -> (fill: Mix)
    ensures
        fill.share matches Share::Of(share) && (fill.from, fill.to, share@) == unrest_mix(
            region.unrest,
            region.devastation,
        ),
{
    let worse = region.unrest.over(Quantity { bits: 0x42c8_0000 }).or_larger(region.devastation);
    Mix {
        from: Rgb { r: 20, g: 45, b: 30 },
        to: Rgb { r: 85, g: 15, b: 15 },
        share: Share::Of(Unit01::new(worse)),
    }
}

/// The cuts as the legend shows them.
pub open spec fn cut_points_text(cuts: Cuts) -> Seq<char> {
    cuts.first.fixed(3) + "/"@ + cuts.second.fixed(3) + "/"@ + cuts.third.fixed(3) + "/"@ + cuts.fourth.fixed(3)
}

/// Writes the cuts as the legend shows them.
pub fn format_cut_points(cuts: Cuts) -> (text: String)
    ensures
        text@ == cut_points_text(cuts),
{
    let mut text = cuts.first.fixed_text(3);
    text.append("/");
    text.append(cuts.second.fixed_text(3).as_str());
    text.append("/");
    text.append(cuts.third.fixed_text(3).as_str());
    text.append("/");
    text.append(cuts.fourth.fixed_text(3).as_str());
    text
}

/// The heading of the legend.
pub open spec fn legend_header_text(mode: MapMode, world: World, active_good: Good) -> Seq<char> {
    match mode {
        MapMode::Political => "所属勢力の色（占領・戦災で変色）"@,
        MapMode::Terrain => "地形（防御力・移動コストの土台）"@,
        MapMode::Population => "人口の分布（現状から自動区分）"@,
        MapMode::Industry => world.labels.goods@[active_good.position()]@ + "：明るさ=実効生産力"@,
        MapMode::Unrest => "不穏度と戦災、悪い方を表示"@,
        MapMode::Supply => "供給路と詰まり箇所（旧Lキー表示）"@,
    }
}

/// Writes the heading of the legend.
pub fn legend_header(mode: MapMode, world: &World, active_good: Good) -> (text: String)
    requires
        world.valid(),
    ensures
        text@ == legend_header_text(mode, *world, active_good),
{
    match mode {
        MapMode::Political => "所属勢力の色（占領・戦災で変色）".to_owned(),
        MapMode::Terrain => "地形（防御力・移動コストの土台）".to_owned(),
        MapMode::Population => "人口の分布（現状から自動区分）".to_owned(),
        MapMode::Industry => {
            let mut text = world.labels.goods[active_good.index()].as_str().to_owned();
            text.append("：明るさ=実効生産力");
            text
        },
        MapMode::Unrest => "不穏度と戦災、悪い方を表示".to_owned(),
        MapMode::Supply => "供給路と詰まり箇所（旧Lキー表示）".to_owned(),
    }
}

/// A row of the legend: a swatch, what it stands for, and whether it is the one picked.
pub struct LegendRow {
    pub color: Rgb,
    pub label: String,
    pub selected: bool,
}

/// A row of the legend.
pub ghost struct LegendRowView {
    pub color: Rgb,
    pub label: Seq<char>,
    pub selected: bool,
}

impl View for LegendRow {
    type V = LegendRowView;

    open spec fn view(&self) -> LegendRowView {
        LegendRowView { color: self.color, label: self.label@, selected: self.selected }
    }
}

/// The rows of a list.
pub open spec fn rows_view(rows: Seq<LegendRow>) -> Seq<LegendRowView> {
    Seq::new(rows.len(), |i: int| rows[i]@)
}

/// A row that cannot be picked.
pub open spec fn plain_row(color: Rgb, label: Seq<char>) -> LegendRowView {
    LegendRowView { color, label, selected: false }
}

/// The row of a good: its cuts if it is the one shown, else its name.
pub open spec fn good_row(world: World, good: Good, active_good: Good, cuts: Cuts) -> LegendRowView {
    LegendRowView {
        color: good_rgb(good),
        label: if good == active_good {
            cut_points_text(cuts)
        } else {
            world.labels.goods@[good.position()]@
        },
        selected: good == active_good,
    }
}

/// The rows of the legend.
pub open spec fn legend_of(mode: MapMode, world: World, active_good: Good) -> Seq<LegendRowView> {
    match mode {
        MapMode::Political => Seq::empty(),
        MapMode::Terrain => seq![
            plain_row(terrain_rgb(Terrain::Plain), "平地"@),
            plain_row(terrain_rgb(Terrain::Hill), "丘陵"@),
            plain_row(terrain_rgb(Terrain::Mountain), "山地"@),
            plain_row(terrain_rgb(Terrain::Urban), "都市"@),
        ],
        MapMode::Population => population_rows(cuts_of(populations(world))),
        MapMode::Industry => {
            let cuts = cuts_of(capacities(world, active_good));
            Seq::new(GOOD_COUNT as nat, |i: int| good_row(world, Good::at(i), active_good, cuts))
        },
        MapMode::Unrest => seq![
            plain_row(unrest_calm_rgb(), "低い（安定）"@),
            plain_row(unrest_alarm_rgb(), "高い（不穏・荒廃）"@),
        ],
        MapMode::Supply => seq![
            plain_row(chokepoint_rgb(), "chokepoint（飽和）"@),
            plain_row(active_route_rgb(), "active route"@),
            plain_row(relay_full_rgb(), "relay route（余力あり）"@),
            plain_row(ring_starved_rgb(), "ring: starved"@),
            plain_row(ring_full_rgb(), "ring: full"@),
            plain_row(ring_contested_rgb(), "ring: contested"@),
        ],
    }
}

/// The rows of the legend for the bands of the population.
pub open spec fn population_rows(cuts: Cuts) -> Seq<LegendRowView> {
    seq![
        plain_row(population_band_rgb(0), "非常に少（〜"@ + cuts.first.fixed(0) + "）"@),
        plain_row(population_band_rgb(1), "少（"@ + cuts.first.fixed(0) + "〜"@ + cuts.second.fixed(0) + "）"@),
        plain_row(population_band_rgb(2), "中（"@ + cuts.second.fixed(0) + "〜"@ + cuts.third.fixed(0) + "）"@),
        plain_row(population_band_rgb(3), "多（"@ + cuts.third.fixed(0) + "〜"@ + cuts.fourth.fixed(0) + "）"@),
        plain_row(population_band_rgb(4), "非常に多（"@ + cuts.fourth.fixed(0) + "〜）"@),
    ]
}

fn row(color: Rgb, label: &str) -> (row: LegendRow)
    ensures
        row@ == plain_row(color, label@),
{
    LegendRow { color, label: label.to_owned(), selected: false }
}

fn range_label(before: &str, low: Quantity, high: Quantity) -> (label: String)
    ensures
        label@ == before@ + low.fixed(0) + "〜"@ + high.fixed(0) + "）"@,
{
    let mut label = before.to_owned();
    label.append(low.fixed_text(0).as_str());
    label.append("〜");
    label.append(high.fixed_text(0).as_str());
    label.append("）");
    label
}

fn population_entries(cuts: Cuts) -> (rows: Vec<LegendRow>)
    ensures
        rows_view(rows@) == population_rows(cuts),
{
    let mut lowest = "非常に少（〜".to_owned();
    lowest.append(cuts.first.fixed_text(0).as_str());
    lowest.append("）");
    let mut highest = "非常に多（".to_owned();
    highest.append(cuts.fourth.fixed_text(0).as_str());
    highest.append("〜）");
    let mut rows: Vec<LegendRow> = Vec::new();
    rows.push(LegendRow { color: population_band_color(0), label: lowest, selected: false });
    rows.push(LegendRow { color: population_band_color(1), label: range_label("少（", cuts.first, cuts.second), selected: false });
    rows.push(LegendRow { color: population_band_color(2), label: range_label("中（", cuts.second, cuts.third), selected: false });
    rows.push(LegendRow { color: population_band_color(3), label: range_label("多（", cuts.third, cuts.fourth), selected: false });
    rows.push(LegendRow { color: population_band_color(4), label: highest, selected: false });
    assert(rows_view(rows@) =~= population_rows(cuts));
    rows
}

fn industry_entries(world: &World, cuts: Cuts, active_good: Good) -> (rows: Vec<LegendRow>)
    requires
        world.valid(),
    ensures
        rows_view(rows@) == Seq::new(GOOD_COUNT as nat, |i: int| good_row(*world, Good::at(i), active_good, cuts)),
{
    let mut rows: Vec<LegendRow> = Vec::new();
    let mut i: usize = 0;
    while i < GOOD_COUNT
        invariant
            world.valid(),
            i <= GOOD_COUNT,
            rows.len() == i,
            forall|k: int| 0 <= k < i ==> (#[trigger] rows@[k])@ == good_row(*world, Good::at(k), active_good, cuts),
        decreases GOOD_COUNT - i,
    {
        let good = Good::nth(i);
        let selected = good == active_good;
        let label = if selected {
            format_cut_points(cuts)
        } else {
            world.labels.goods[i].as_str().to_owned()
        };
        rows.push(LegendRow { color: good_hue(good), label, selected });
        i += 1;
    }
    assert(rows_view(rows@) =~= Seq::new(GOOD_COUNT as nat, |k: int| good_row(*world, Good::at(k), active_good, cuts)));
    rows
}

/// The rows of the legend.
pub fn legend_entries(mode: MapMode, world: &World, active_good: Good) -> (rows: Vec<LegendRow>)
    requires
        world.valid(),
    ensures
        rows_view(rows@) == legend_of(mode, *world, active_good),
{
    let mut rows: Vec<LegendRow> = Vec::new();
    match mode {
        MapMode::Political => {},
        MapMode::Terrain => {
            rows.push(row(terrain_fill(Terrain::Plain), "平地"));
            rows.push(row(terrain_fill(Terrain::Hill), "丘陵"));
            rows.push(row(terrain_fill(Terrain::Mountain), "山地"));
            rows.push(row(terrain_fill(Terrain::Urban), "都市"));
        },
        MapMode::Population => {
            return population_entries(population_thresholds(world));
        },
        MapMode::Industry => {
            return industry_entries(world, industry_thresholds(world, active_good), active_good);
        },
        MapMode::Unrest => {
            rows.push(row(Rgb { r: 20, g: 45, b: 30 }, "低い（安定）"));
            rows.push(row(Rgb { r: 85, g: 15, b: 15 }, "高い（不穏・荒廃）"));
        },
        MapMode::Supply => {
            rows.push(row(Rgb { r: 100, g: 8, b: 5 }, "chokepoint（飽和）"));
            rows.push(row(Rgb { r: 58, g: 52, b: 36 }, "active route"));
            rows.push(row(Rgb { r: 35, g: 85, b: 35 }, "relay route（余力あり）"));
            rows.push(row(Rgb { r: 85, g: 20, b: 45 }, "ring: starved"));
            rows.push(row(Rgb { r: 20, g: 85, b: 55 }, "ring: full"));
            rows.push(row(Rgb { r: 65, g: 25, b: 80 }, "ring: contested"));
        },
    }
    assert(rows_view(rows@) =~= legend_of(mode, *world, active_good));
    rows
}

/// The legend never needs more rows than it has room for.
pub proof fn legend_fits(mode: MapMode, world: World, active_good: Good)
    ensures
        legend_of(mode, world, active_good).len() <= MODE_LEGEND_ROWS,
{
}

/// In the industry mode exactly the row of the good that is shown is marked.
pub proof fn legend_marks_the_active_good(world: World, active_good: Good, i: int)
    requires
        0 <= i < GOOD_COUNT,
    ensures
        legend_of(MapMode::Industry, world, active_good)[i].selected <==> i == active_good.position(),
{
}

/// The text of a row as it is shown.
pub open spec fn shown_row(row: LegendRowView) -> Seq<char> {
    (if row.selected {
        "▶"@
    } else {
        "■"@
    }) + " "@ + row.label
}

/// Writes the text of a row as it is shown.
pub fn legend_row_text(row: &LegendRow) -> (text: String)
    ensures
        text@ == shown_row(row@),
{
    let mut text = if row.selected {
        "▶".to_owned()
    } else {
        "■".to_owned()
    };
    text.append(" ");
    text.append(row.label.as_str());
    text
}

/// The good that is shown after a click on a row of the legend: that of the row in the industry
/// mode, else the same as before.
pub open spec fn good_after_row_click(mode: MapMode, active_good: Good, row: int) -> Good {
    if mode == MapMode::Industry && row < GOOD_COUNT {
        Good::at(row)
    } else {
        active_good
    }
}

/// A click on a row of the legend.
pub fn legend_row_click(mode: MapMode, active_good: Good, row: usize) -> (good: Good)
    ensures
        good == good_after_row_click(mode, active_good, row as int),
{
    if mode == MapMode::Industry && row < GOOD_COUNT {
        Good::nth(row)
    } else {
        active_good
    }
}

} // verus!
