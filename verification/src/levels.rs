use vstd::prelude::*;
use vstd::pervasive::unreached;
use crate::color::Color;
use crate::level_text::{LevelError, catalog_of, read_catalog};
use crate::text::text_eq;
use crate::tile::{Tile, TileView};

verus! {

/// A tile together with the cell of the yard where it stands: column `x`, row `y`.
#[derive(Debug)]
pub struct PositionedTile {
    pub tile: Tile,
    pub x: u8,
    pub y: u8,
}

/// The mathematical content of a positioned tile.
pub struct PositionedTileView {
    pub tile: TileView,
    pub x: u8,
    pub y: u8,
}

impl PositionedTileView {
    /// The cell lies on the board and the tile, well formed, holds no train in flight.
    pub open spec fn wf(self) -> bool {
        self.x < 7 && self.y < 7 && self.tile.at_rest()
    }
}

impl View for PositionedTile {
    type V = PositionedTileView;

    open spec fn view(&self) -> PositionedTileView {
        PositionedTileView { tile: self.tile@, x: self.x, y: self.y }
    }
}

impl Clone for PositionedTile {
    fn clone(&self) -> (copy: Self)
        ensures
            copy@ == self@,
    {
        PositionedTile { tile: self.tile.clone(), x: self.x, y: self.y }
    }
}

/// A layout: tiles with their cells, in the order in which they are placed,
/// so that of two tiles on one cell the later one stands.
pub type LevelInfo = Vec<PositionedTile>;

/// The mathematical content of a layout.
pub open spec fn placements(info: Seq<PositionedTile>) -> Seq<PositionedTileView> {
    Seq::new(info.len(), |i: int| info[i]@)
}

/// Every placement of the layout is well formed.
pub open spec fn placements_wf(info: Seq<PositionedTileView>) -> bool {
    forall|i: int| 0 <= i < info.len() ==> (#[trigger] info[i]).wf()
}

/// Whether every placement of the layout is well formed.
pub fn is_well_placed(info: &LevelInfo) -> (r: bool)
    ensures
        r == placements_wf(placements(info@)),
{
    let mut i: usize = 0;
    while i < info.len()
        invariant
            i <= info.len(),
            forall|j: int| 0 <= j < i ==> (#[trigger] placements(info@)[j]).wf(),
        decreases info.len() - i,
    {
        if !(info[i].x < 7 && info[i].y < 7 && info[i].tile.is_at_rest()) {
            assert(!placements(info@)[i as int].wf());
            return false;
        }
        i += 1;
    }
    true
}

/// A copy of a layout.
pub fn copy_level_info(info: &LevelInfo) -> (copy: LevelInfo)
    ensures
        placements(copy@) == placements(info@),
{
    let mut copy: LevelInfo = Vec::new();
    let mut i: usize = 0;
    while i < info.len()
        invariant
            i <= info.len(),
            copy@.len() == i,
            forall|j: int| 0 <= j < i ==> copy@[j]@ == info@[j]@,
        decreases info.len() - i,
    {
        copy.push(info[i].clone());
        i += 1;
    }
    assert(placements(copy@) =~= placements(info@));
    copy
}

/// The color that the word `name` names, if it names one.
pub open spec fn color_named(name: Seq<char>) -> Option<Color> {
    if name == "red"@ {
        Some(Color::Red)
    } else if name == "blue"@ {
        Some(Color::Blue)
    } else if name == "yellow"@ {
        Some(Color::Yellow)
    } else if name == "purple"@ {
        Some(Color::Purple)
    } else if name == "green"@ {
        Some(Color::Green)
    } else if name == "orange"@ {
        Some(Color::Orange)
    } else if name == "brown"@ {
        Some(Color::Brown)
    } else {
        None
    }
}

/// The border that the word `name` names, if it names one.
pub open spec fn dir_named(name: Seq<char>) -> Option<u8> {
    if name == "up"@ {
        Some(0u8)
    } else if name == "right"@ {
        Some(1u8)
    } else if name == "down"@ {
        Some(2u8)
    } else if name == "left"@ {
        Some(3u8)
    } else {
        None
    }
}

/// The color that the word `s` names, if it names one.
pub fn convert_string_to_color(s: &str) -> (color: Option<Color>)
    ensures
        color == color_named(s@),
{
    if text_eq(s, "red") {
        Some(Color::Red)
    } else if text_eq(s, "blue") {
        Some(Color::Blue)
    } else if text_eq(s, "yellow") {
        Some(Color::Yellow)
    } else if text_eq(s, "purple") {
        Some(Color::Purple)
    } else if text_eq(s, "green") {
        Some(Color::Green)
    } else if text_eq(s, "orange") {
        Some(Color::Orange)
    } else if text_eq(s, "brown") {
        Some(Color::Brown)
    } else {
        None
    }
}

/// The border that the word `s` names, if it names one.
pub fn convert_string_to_dir(s: &str) -> (dir: Option<u8>)
    ensures
        dir == dir_named(s@),
{
    if text_eq(s, "up") {
        Some(0)
    } else if text_eq(s, "right") {
        Some(1)
    } else if text_eq(s, "down") {
        Some(2)
    } else if text_eq(s, "left") {
        Some(3)
    } else {
        None
    }
}

/// A puzzle: the tiles that the level places, the track that the player had
/// drawn when the level was last left, the level's name and its difficulty.
#[derive(Debug)]
pub struct Level {
    pub level_info: LevelInfo,
    pub current_progress: LevelInfo,
    pub name: String,
    pub num_stars: u32,
}

/// The mathematical content of a level.
pub struct LevelView {
    pub level_info: Seq<PositionedTileView>,
    pub current_progress: Seq<PositionedTileView>,
    pub name: Seq<char>,
    pub num_stars: u32,
}

impl LevelView {
    /// Both layouts of the level are well formed.
    pub open spec fn wf(self) -> bool {
        placements_wf(self.level_info) && placements_wf(self.current_progress)
    }
}

impl View for Level {
    type V = LevelView;

    open spec fn view(&self) -> LevelView {
        LevelView {
            level_info: placements(self.level_info@),
            current_progress: placements(self.current_progress@),
            name: self.name@,
            num_stars: self.num_stars,
        }
    }
}

/// The mathematical content of a list of levels.
pub open spec fn level_views(levels: Seq<Level>) -> Seq<LevelView> {
    Seq::new(levels.len(), |i: int| levels[i]@)
}

/// A city: its name and its levels.
pub type City = (String, Vec<Level>);

/// The mathematical content of a city.
pub struct CityView {
    pub name: Seq<char>,
    pub levels: Seq<LevelView>,
}

/// The mathematical content of a city.
pub open spec fn city_view(city: City) -> CityView {
    CityView { name: city.0@, levels: level_views(city.1@) }
}

/// The mathematical content of a list of cities.
pub open spec fn city_views(cities: Seq<City>) -> Seq<CityView> {
    Seq::new(cities.len(), |i: int| city_view(cities[i]))
}

impl Level {
    /// Both layouts of the level are well formed.
    pub open spec fn wf(&self) -> bool {
        self@.wf()
    }

    /// Whether both layouts of the level are well formed, so that a yard can
    /// be made from the level.
    pub fn is_valid(&self) -> (r: bool)
        ensures
            r == self.wf(),
    {
        is_well_placed(&self.level_info) && is_well_placed(&self.current_progress)
    }
}

/// The catalog of levels, city by city.
pub struct LevelManager(Vec<City>);

impl View for LevelManager {
    type V = Seq<CityView>;

    closed spec fn view(&self) -> Seq<CityView> {
        city_views(self.0@)
    }
}

/// The first index at or after `from` of a city of `cities` with the name
/// `name`, or the number of cities if there is none.
pub open spec fn first_city_named(cities: Seq<CityView>, name: Seq<char>, from: int) -> int
    decreases cities.len() - from,
{
    if from < 0 || from >= cities.len() {
        cities.len() as int
    } else if cities[from].name == name {
        from
    } else {
        first_city_named(cities, name, from + 1)
    }
}

/// The first index at or after `from` of a level of `levels` with the name
/// `name`, or the number of levels if there is none.
pub open spec fn first_level_named(levels: Seq<LevelView>, name: Seq<char>, from: int) -> int
    decreases levels.len() - from,
{
    if from < 0 || from >= levels.len() {
        levels.len() as int
    } else if levels[from].name == name {
        from
    } else {
        first_level_named(levels, name, from + 1)
    }
}

/// The first index at or after `from` of a city of `cities` that has a level
/// with the name `name`, or the number of cities if there is none.
pub open spec fn first_city_with_level(cities: Seq<CityView>, name: Seq<char>, from: int) -> int
    decreases cities.len() - from,
{
    if from < 0 || from >= cities.len() {
        cities.len() as int
    } else if first_level_named(cities[from].levels, name, 0) < cities[from].levels.len() {
        from
    } else {
        first_city_with_level(cities, name, from + 1)
    }
}

/// Some city of `cities` has the name `name`.
pub open spec fn has_city_named(cities: Seq<CityView>, name: Seq<char>) -> bool {
    first_city_named(cities, name, 0) < cities.len()
}

/// Some city of `cities` has a level with the name `name`.
pub open spec fn has_level_named(cities: Seq<CityView>, name: Seq<char>) -> bool {
    first_city_with_level(cities, name, 0) < cities.len()
}

/// The first level with the name `name` in the first city of `cities` that
/// has one.
pub open spec fn level_named(cities: Seq<CityView>, name: Seq<char>) -> LevelView {
    let levels = cities[first_city_with_level(cities, name, 0)].levels;
    levels[first_level_named(levels, name, 0)]
}

/// `cities` with the track `progress` recorded as drawn in the first level
/// with the name `name`, if there is such a level.
pub open spec fn with_progress(
    cities: Seq<CityView>,
    name: Seq<char>,
    progress: Seq<PositionedTileView>,
) -> Seq<CityView> {
    if has_level_named(cities, name) {
        let c = first_city_with_level(cities, name, 0);
        let l = first_level_named(cities[c].levels, name, 0);
        let level = cities[c].levels[l];
        cities.update(
            c,
            CityView {
                name: cities[c].name,
                levels: cities[c].levels.update(
                    l,
                    LevelView {
                        level_info: level.level_info,
                        current_progress: progress,
                        name: level.name,
                        num_stars: level.num_stars,
                    },
                ),
            },
        )
    } else {
        cities
    }
}

/// The index of the first level of `levels` with the name `name`, or the
/// number of levels if there is none.
fn find_level(levels: &Vec<Level>, name: &str) -> (index: usize)
    ensures
        index == first_level_named(level_views(levels@), name@, 0),
        index <= levels@.len(),
{
    let mut index: usize = 0;
    while index < levels.len()
        invariant
            index <= levels.len(),
            first_level_named(level_views(levels@), name@, 0) == first_level_named(
                level_views(levels@),
                name@,
                index as int,
            ),
        decreases levels.len() - index,
    {
        assert(level_views(levels@)[index as int] == levels@[index as int]@);
        if text_eq(levels[index].name.as_str(), name) {
            return index;
        }
        index += 1;
    }
    index
}

impl LevelManager {
    /// Reads the catalog of levels that `text` writes.
    pub fn new(text: &str) -> (outcome: Result<LevelManager, LevelError>)
        ensures
            match catalog_of(text@) {
                Ok(cities) => outcome is Ok && outcome.unwrap()@ == cities,
                Err(e) => outcome is Err && outcome->Err_0 == e,
            },
    {
        match read_catalog(text) {
            Ok(cities) => Ok(LevelManager(cities)),
            Err(e) => Err(e),
        }
    }

    /// The names of the cities, in the order of the catalog.
    pub fn get_city_names(&self) -> (names: Vec<String>)
        ensures
            names@.len() == self@.len(),
            forall|i: int| 0 <= i < names@.len() ==> (#[trigger] names@[i])@ == self@[i].name,
    {
        let mut names: Vec<String> = Vec::new();
        let mut i: usize = 0;
        while i < self.0.len()
            invariant
                i <= self.0.len(),
                names@.len() == i,
                forall|j: int| 0 <= j < i ==> (#[trigger] names@[j])@ == self@[j].name,
            decreases self.0.len() - i,
        {
            names.push(self.0[i].0.clone());
            i += 1;
        }
        names
    }

    /// The index of the first city that has a level with the name
    /// `level_name`, or the number of cities if there is none.
    fn find_city_with_level(&self, level_name: &str) -> (index: usize)
        ensures
            index == first_city_with_level(self@, level_name@, 0),
            index <= self@.len(),
    {
        let mut index: usize = 0;
        while index < self.0.len()
            invariant
                index <= self.0.len(),
                first_city_with_level(self@, level_name@, 0) == first_city_with_level(
                    self@,
                    level_name@,
                    index as int,
                ),
            decreases self.0.len() - index,
        {
            assert(self@[index as int] == city_view(self.0@[index as int]));
            if find_level(&self.0[index].1, level_name) < self.0[index].1.len() {
                return index;
            }
            index += 1;
        }
        index
    }

    /// Whether some city has the name `city_name`.
    pub fn has_city(&self, city_name: &str) -> (r: bool)
        ensures
            r == has_city_named(self@, city_name@),
    {
        self.find_city(city_name) < self.0.len()
    }

    /// The index of the first city with the name `city_name`, or the number
    /// of cities if there is none.
    fn find_city(&self, city_name: &str) -> (index: usize)
        ensures
            index == first_city_named(self@, city_name@, 0),
            index <= self@.len(),
    {
        let mut index: usize = 0;
        while index < self.0.len()
            invariant
                index <= self.0.len(),
                first_city_named(self@, city_name@, 0) == first_city_named(
                    self@,
                    city_name@,
                    index as int,
                ),
            decreases self.0.len() - index,
        {
            assert(self@[index as int] == city_view(self.0@[index as int]));
            if text_eq(self.0[index].0.as_str(), city_name) {
                return index;
            }
            index += 1;
        }
        index
    }

    /// Whether some level has the name `level_name`.
    pub fn has_level(&self, level_name: &str) -> (r: bool)
        ensures
            r == has_level_named(self@, level_name@),
    {
        self.find_city_with_level(level_name) < self.0.len()
    }

    /// The names of the levels of the first city with the name `city_name`.
    pub fn get_names_in_city(&self, city_name: &str) -> (names: Vec<String>)
        requires
            has_city_named(self@, city_name@),
        ensures
            names@.len() == self@[first_city_named(self@, city_name@, 0)].levels.len(),
            forall|i: int|
                0 <= i < names@.len() ==> (#[trigger] names@[i])@ == self@[first_city_named(
                    self@,
                    city_name@,
                    0,
                )].levels[i].name,
    {
        let c = self.find_city(city_name);
        let levels = &self.0[c].1;
        assert(self@[c as int] == city_view(self.0@[c as int]));
        let mut names: Vec<String> = Vec::new();
        let mut i: usize = 0;
        while i < levels.len()
            invariant
                i <= levels.len(),
                names@.len() == i,
                forall|j: int| 0 <= j < i ==> (#[trigger] names@[j])@ == level_views(levels@)[j].name,
            decreases levels.len() - i,
        {
            names.push(levels[i].name.clone());
            i += 1;
        }
        names
    }

    /// The first level with the name `level_name`.
    pub fn get_level(&self, level_name: &str) -> (level: &Level)
        requires
            has_level_named(self@, level_name@),
        ensures
            level@ == level_named(self@, level_name@),
    {
        let c = self.find_city_with_level(level_name);
        assert(self@[c as int] == city_view(self.0@[c as int]));
        let l = find_level(&self.0[c].1, level_name);
        if l < self.0[c].1.len() {
            assert(level_views(self.0@[c as int].1@)[l as int] == self.0@[c as int].1@[l as int]@);
            &self.0[c].1[l]
        } else {
            proof {
                lemma_city_with_level(self@, level_name@, 0);
            }
            unreached()
        }
    }

    /// Records the track `progress` as drawn in the first level with the
    /// name `level_name`, if there is such a level.
    pub fn set_level_current_progress(&mut self, level_name: &str, progress: &LevelInfo)
        ensures
            final(self)@ == with_progress(old(self)@, level_name@, placements(progress@)),
    {
        let c = self.find_city_with_level(level_name);
        if c < self.0.len() {
            let ghost before = self@;
            assert(before[c as int] == city_view(self.0@[c as int]));
            let l = find_level(&self.0[c].1, level_name);
            proof {
                lemma_city_with_level(before, level_name@, 0);
            }
            let ghost levels = level_views(self.0@[c as int].1@);
            assert(levels[l as int] == self.0@[c as int].1@[l as int]@);
            self.0[c].1[l].current_progress = copy_level_info(progress);
            proof {
                let after = with_progress(before, level_name@, placements(progress@));
                assert(level_views(self.0@[c as int].1@) =~= after[c as int].levels);
                assert(self@ =~= after);
            }
        }
    }
}

/// The first city that has a level with the name `name` has one.
pub proof fn lemma_city_with_level(cities: Seq<CityView>, name: Seq<char>, from: int)
    requires
        0 <= from <= cities.len(),
    ensures
        from <= first_city_with_level(cities, name, from) <= cities.len(),
        first_city_with_level(cities, name, from) < cities.len() ==> 0 <= first_level_named(
            cities[first_city_with_level(cities, name, from)].levels,
            name,
            0,
        ) < cities[first_city_with_level(cities, name, from)].levels.len(),
    decreases cities.len() - from,
{
    if from < cities.len() {
        lemma_level_index(cities[from].levels, name, 0);
        if !(first_level_named(cities[from].levels, name, 0) < cities[from].levels.len()) {
            lemma_city_with_level(cities, name, from + 1);
        }
    }
}

/// The first level with the name `name` lies among the levels, if there is one.
pub proof fn lemma_level_index(levels: Seq<LevelView>, name: Seq<char>, from: int)
    requires
        0 <= from <= levels.len(),
    ensures
        from <= first_level_named(levels, name, from) <= levels.len(),
        first_level_named(levels, name, from) < levels.len() ==> levels[first_level_named(
            levels,
            name,
            from,
        )].name == name,
    decreases levels.len() - from,
{
    if from < levels.len() && levels[from].name != name {
        lemma_level_index(levels, name, from + 1);
    }
}

} // verus!
