use vstd::prelude::*;
use vstd::string::StrSliceExecFns;
use crate::color::Color;
use crate::connection::Connection;
use crate::levels::{
    City, CityView, Level, LevelInfo, LevelView, PositionedTile, PositionedTileView, city_view,
    city_views, color_named, convert_string_to_color, convert_string_to_dir, dir_named,
    level_views, placements,
};
use crate::text::{
    digit, digit_of, has_prefix, number_of, parse_u32, split, split_text, starts_with, text_eq,
    texts,
};
use crate::tile::painter::Painter;
use crate::tile::rock::Rock;
use crate::tile::splitter::Splitter;
use crate::tile::trainsink::{Trainsink, TrainsinkView};
use crate::tile::trainsource::{Trainsource, TrainsourceView};
use crate::tile::{Tile, TileView, no_trains};

verus! {

/// Why a text is not a catalog of levels. Lines are counted from one, and
/// blank lines and comment lines count.
#[derive(Copy, Clone, PartialEq, Eq, Debug, Structural)]
pub enum LevelError {
    /// A city was expected, and the line does not begin with `CITY:`.
    ExpectedCity { line: usize },
    /// The text ends inside a city or a level.
    UnexpectedEnd,
    /// The first line of a level is not a name and a number with one colon between.
    ExpectedNameAndStars { line: usize },
    /// The number of stars of a level is not a number.
    BadStars { line: usize },
    /// The line of a tile lacks a digit where a column or a row is expected.
    BadPosition { line: usize },
    /// The line of a tile has too few or too many fields.
    WrongFieldCount { line: usize },
    /// A word that should name a color names none.
    BadColor { line: usize },
    /// A word that should name a border names none.
    BadDirection { line: usize },
    /// A painter is given other than two borders.
    PainterNeedsTwoDirections { line: usize },
    /// The line of a tile begins with no known mark.
    BadLineStart { line: usize },
}

/// A line of a text together with its number in the text.
pub struct NumberedLine {
    pub number: usize,
    pub text: Seq<char>,
}

/// A line of a text together with its number in the text.
pub struct KeptLine<'a> {
    pub number: usize,
    pub text: &'a str,
}

impl<'a> View for KeptLine<'a> {
    type V = NumberedLine;

    open spec fn view(&self) -> NumberedLine {
        NumberedLine { number: self.number, text: self.text@ }
    }
}

/// The mathematical content of a list of lines.
pub open spec fn line_views(lines: Seq<KeptLine>) -> Seq<NumberedLine> {
    Seq::new(lines.len(), |i: int| lines[i]@)
}

/// The line is blank or a comment, and the grammar passes over it.
pub open spec fn skipped(line: Seq<char>) -> bool {
    starts_with(line, "//"@) || line.len() == 0
}

/// The lines among the first `n` of `raw` that the grammar reads, each with
/// its number.
pub open spec fn kept_upto(raw: Seq<Seq<char>>, n: int) -> Seq<NumberedLine>
    decreases n,
{
    if n <= 0 {
        Seq::empty()
    } else if skipped(raw[n - 1]) {
        kept_upto(raw, n - 1)
    } else {
        kept_upto(raw, n - 1).push(NumberedLine { number: n as usize, text: raw[n - 1] })
    }
}

/// The lines of `text` that the grammar reads.
pub open spec fn kept_lines(text: Seq<char>) -> Seq<NumberedLine> {
    kept_upto(split(text, '\n'), split(text, '\n').len() as int)
}

/// `s` without its first `n` characters.
pub open spec fn tail(s: Seq<char>, n: int) -> Seq<char> {
    if n <= s.len() {
        s.subrange(n, s.len() as int)
    } else {
        Seq::empty()
    }
}

/// The column and the row that `p` begins with: a digit, any character, a digit.
pub open spec fn position_of(p: Seq<char>) -> Option<(u8, u8)> {
    if p.len() >= 3 && digit_of(p[0]) is Some && digit_of(p[2]) is Some {
        Some((digit_of(p[0]).unwrap(), digit_of(p[2]).unwrap()))
    } else {
        None
    }
}

/// The colors that the words of `names` from the `i`-th on name, after
/// `acc`; none if a word names no color.
pub open spec fn colors_from(names: Seq<Seq<char>>, i: int, acc: Seq<Color>) -> Option<Seq<Color>>
    decreases names.len() - i,
{
    if i < 0 || i >= names.len() {
        Some(acc)
    } else {
        match color_named(names[i]) {
            None => None,
            Some(color) => colors_from(names, i + 1, acc.push(color)),
        }
    }
}

/// The colors that the comma-separated words of `field` name.
pub open spec fn colors_listed(field: Seq<char>) -> Option<Seq<Color>> {
    colors_from(split(field, ','), 0, Seq::empty())
}

/// The borders that the words of `names` from the `i`-th on name, after
/// `acc`; none if a word names no border.
pub open spec fn dirs_from(names: Seq<Seq<char>>, i: int, acc: Seq<u8>) -> Option<Seq<u8>>
    decreases names.len() - i,
{
    if i < 0 || i >= names.len() {
        Some(acc)
    } else {
        match dir_named(names[i]) {
            None => None,
            Some(dir) => dirs_from(names, i + 1, acc.push(dir)),
        }
    }
}

/// The borders that the comma-separated words of `field` name.
pub open spec fn dirs_listed(field: Seq<char>) -> Option<Seq<u8>> {
    dirs_from(split(field, ','), 0, Seq::empty())
}

/// Which borders are among the first `n` of `dirs`.
pub open spec fn opened(dirs: Seq<u8>, n: int) -> Seq<bool>
    decreases n,
{
    if n <= 0 {
        seq![false, false, false, false]
    } else {
        opened(dirs, n - 1).update(dirs[n - 1] as int, true)
    }
}

/// The rocks at the positions `positions` from the `i`-th on, after `acc`;
/// none if one of them is no position.
pub open spec fn rocks_from(
    positions: Seq<Seq<char>>,
    i: int,
    acc: Seq<PositionedTileView>,
) -> Option<Seq<PositionedTileView>>
    decreases positions.len() - i,
{
    if i < 0 || i >= positions.len() {
        Some(acc)
    } else {
        match position_of(positions[i]) {
            None => None,
            Some(at) => rocks_from(
                positions,
                i + 1,
                acc.push(PositionedTileView { tile: TileView::Rock, x: at.0, y: at.1 }),
            ),
        }
    }
}

/// The source that the line describes: the mark, the cell, the colors of
/// its trains, and its exit.
pub open spec fn source_of(line: NumberedLine, x: u8, y: u8) -> Result<
    Seq<PositionedTileView>,
    LevelError,
> {
    let fields = split(line.text, ' ');
    if fields.len() != 4 {
        Err(LevelError::WrongFieldCount { line: line.number })
    } else {
        match colors_listed(fields[2]) {
            None => Err(LevelError::BadColor { line: line.number }),
            Some(colors) => match dir_named(fields[3]) {
                None => Err(LevelError::BadDirection { line: line.number }),
                Some(dir) => Ok(
                    seq![
                        PositionedTileView {
                            tile: TileView::Trainsource(
                                TrainsourceView {
                                    trains: Seq::new(colors.len(), |i: int| Some(colors[i])),
                                    dir,
                                    outgoing_train: None,
                                },
                            ),
                            x,
                            y,
                        },
                    ],
                ),
            },
        }
    }
}

/// The sink that the line describes: the mark, the cell, the colors it
/// desires, and its open borders.
pub open spec fn sink_of(line: NumberedLine, x: u8, y: u8) -> Result<
    Seq<PositionedTileView>,
    LevelError,
> {
    let fields = split(line.text, ' ');
    if fields.len() != 4 {
        Err(LevelError::WrongFieldCount { line: line.number })
    } else {
        match colors_listed(fields[2]) {
            None => Err(LevelError::BadColor { line: line.number }),
            Some(colors) => match dirs_listed(fields[3]) {
                None => Err(LevelError::BadDirection { line: line.number }),
                Some(dirs) => Ok(
                    seq![
                        PositionedTileView {
                            tile: TileView::Trainsink(
                                TrainsinkView {
                                    desires: Seq::new(colors.len(), |i: int| Some(colors[i])),
                                    private_desires: Seq::new(
                                        colors.len(),
                                        |i: int| Some(colors[i]),
                                    ),
                                    incoming_trains: no_trains(),
                                    border_state: opened(dirs, dirs.len() as int),
                                },
                            ),
                            x,
                            y,
                        },
                    ],
                ),
            },
        }
    }
}

/// The rocks that the line describes: the mark and one cell for each rock.
pub open spec fn rocks_of(line: NumberedLine) -> Result<Seq<PositionedTileView>, LevelError> {
    match rocks_from(split(tail(line.text, 2), ' '), 0, Seq::empty()) {
        None => Err(LevelError::BadPosition { line: line.number }),
        Some(rocks) => Ok(rocks),
    }
}

/// The painter that the line describes: the mark, the cell, the color, and
/// the two ends of its connection.
pub open spec fn painter_of(line: NumberedLine, x: u8, y: u8) -> Result<
    Seq<PositionedTileView>,
    LevelError,
> {
    let fields = split(line.text, ' ');
    if fields.len() != 4 {
        Err(LevelError::WrongFieldCount { line: line.number })
    } else {
        match color_named(fields[2]) {
            None => Err(LevelError::BadColor { line: line.number }),
            Some(color) => match dirs_listed(fields[3]) {
                None => Err(LevelError::BadDirection { line: line.number }),
                Some(dirs) => if dirs.len() != 2 {
                    Err(LevelError::PainterNeedsTwoDirections { line: line.number })
                } else {
                    Ok(
                        seq![
                            PositionedTileView {
                                tile: TileView::Painter(
                                    Painter {
                                        connection: Connection { dir1: dirs[0], dir2: dirs[1] },
                                        color,
                                        train_to_dir1: None,
                                        train_to_dir2: None,
                                    },
                                ),
                                x,
                                y,
                            },
                        ],
                    )
                },
            },
        }
    }
}

/// The splitter that the line describes: the mark, the cell, and its entry.
pub open spec fn splitter_of(line: NumberedLine, x: u8, y: u8) -> Result<
    Seq<PositionedTileView>,
    LevelError,
> {
    let fields = split(line.text, ' ');
    if fields.len() != 3 {
        Err(LevelError::WrongFieldCount { line: line.number })
    } else {
        match dir_named(fields[2]) {
            None => Err(LevelError::BadDirection { line: line.number }),
            Some(dir) => Ok(
                seq![
                    PositionedTileView {
                        tile: TileView::Splitter(
                            Splitter {
                                incoming_dir: dir,
                                incoming_train: None,
                                train_going_left: None,
                                train_going_right: None,
                            },
                        ),
                        x,
                        y,
                    },
                ],
            ),
        }
    }
}

/// The tiles that the line describes. Every line has a column at its third
/// character and a row at its fifth; its mark tells the kind of tile: `+` a
/// source, `o` a sink, `*` rocks, `p` a painter, `s` a splitter.
pub open spec fn tiles_of_line(line: NumberedLine) -> Result<Seq<PositionedTileView>, LevelError> {
    match position_of(tail(line.text, 2)) {
        None => Err(LevelError::BadPosition { line: line.number }),
        Some(at) => if starts_with(line.text, "+ "@) {
            source_of(line, at.0, at.1)
        } else if starts_with(line.text, "o "@) {
            sink_of(line, at.0, at.1)
        } else if starts_with(line.text, "* "@) {
            rocks_of(line)
        } else if starts_with(line.text, "p "@) {
            painter_of(line, at.0, at.1)
        } else if starts_with(line.text, "s "@) {
            splitter_of(line, at.0, at.1)
        } else {
            Err(LevelError::BadLineStart { line: line.number })
        },
    }
}

/// The tiles of a level, read from line `p` on after the tiles `acc`, up to
/// the line `---` that ends the level, and the line after that one.
pub open spec fn tiles_until_end(
    lines: Seq<NumberedLine>,
    p: int,
    acc: Seq<PositionedTileView>,
) -> Result<(Seq<PositionedTileView>, int), LevelError>
    decreases lines.len() - p,
{
    if p < 0 || p >= lines.len() {
        Err(LevelError::UnexpectedEnd)
    } else if lines[p].text == "---"@ {
        Ok((acc, p + 1))
    } else {
        match tiles_of_line(lines[p]) {
            Err(e) => Err(e),
            Ok(tiles) => tiles_until_end(lines, p + 1, acc + tiles),
        }
    }
}

/// The name and the number of stars that the first line of a level gives.
pub open spec fn level_header(line: NumberedLine) -> Result<(Seq<char>, u32), LevelError> {
    let fields = split(line.text, ':');
    if fields.len() != 2 {
        Err(LevelError::ExpectedNameAndStars { line: line.number })
    } else {
        match number_of(fields[1]) {
            None => Err(LevelError::BadStars { line: line.number }),
            Some(stars) => Ok((fields[0], stars)),
        }
    }
}

/// The levels of a city, read from line `p` on after the levels `acc`, up
/// to the line `----` that ends the city, and the line after that one.
pub open spec fn levels_until_end(lines: Seq<NumberedLine>, p: int, acc: Seq<LevelView>) -> Result<
    (Seq<LevelView>, int),
    LevelError,
>
    decreases lines.len() - p,
{
    if p < 0 || p >= lines.len() {
        Err(LevelError::UnexpectedEnd)
    } else if lines[p].text == "----"@ {
        Ok((acc, p + 1))
    } else {
        match level_header(lines[p]) {
            Err(e) => Err(e),
            Ok(header) => match tiles_until_end(lines, p + 1, Seq::empty()) {
                Err(e) => Err(e),
                Ok(tiles) => if p < tiles.1 <= lines.len() {
                    levels_until_end(
                        lines,
                        tiles.1,
                        acc.push(
                            LevelView {
                                level_info: tiles.0,
                                current_progress: Seq::empty(),
                                name: header.0,
                                num_stars: header.1,
                            },
                        ),
                    )
                } else {
                    Err(LevelError::UnexpectedEnd)
                },
            },
        }
    }
}

/// The cities of a catalog, read from line `p` on after the cities `acc`,
/// up to the end of the text. Each city begins with a line `CITY:` and its name.
pub open spec fn cities_from(lines: Seq<NumberedLine>, p: int, acc: Seq<CityView>) -> Result<
    Seq<CityView>,
    LevelError,
>
    decreases lines.len() - p,
{
    if p < 0 || p >= lines.len() {
        Ok(acc)
    } else if !starts_with(lines[p].text, "CITY:"@) {
        Err(LevelError::ExpectedCity { line: lines[p].number })
    } else {
        match levels_until_end(lines, p + 1, Seq::empty()) {
            Err(e) => Err(e),
            Ok(levels) => if p < levels.1 <= lines.len() {
                cities_from(
                    lines,
                    levels.1,
                    acc.push(CityView { name: tail(lines[p].text, 5), levels: levels.0 }),
                )
            } else {
                Err(LevelError::UnexpectedEnd)
            },
        }
    }
}

/// The catalog of levels that `text` writes, or why it writes none.
///
/// The text is read line by line; blank lines and lines that begin with `//`
/// are passed over. A city is a line `CITY:` with its name, its levels, and a
/// line `----`. A level is a line with its name, a colon and its number of
/// stars, one line for each tile or row of rocks, and a line `---`.
pub open spec fn catalog_of(text: Seq<char>) -> Result<Seq<CityView>, LevelError> {
    cities_from(kept_lines(text), 0, Seq::empty())
}

/// The lines of `text` that the grammar reads, each with its number.
pub fn read_lines<'a>(text: &'a str) -> (lines: Vec<KeptLine<'a>>)
    ensures
        line_views(lines@) == kept_lines(text@),
{
    let raw = split_text(text, '\n');
    let mut lines: Vec<KeptLine<'a>> = Vec::new();
    let mut i: usize = 0;
    while i < raw.len()
        invariant
            i <= raw.len(),
            texts(raw@) == split(text@, '\n'),
            line_views(lines@) == kept_upto(split(text@, '\n'), i as int),
        decreases raw.len() - i,
    {
        let line = raw[i];
        assert(texts(raw@)[i as int] == line@);
        if !(has_prefix(line, "//") || line.unicode_len() == 0) {
            let ghost before = line_views(lines@);
            lines.push(KeptLine { number: i + 1, text: line });
            assert(line_views(lines@) =~= before.push(
                NumberedLine { number: (i + 1) as usize, text: line@ },
            ));
        }
        i += 1;
    }
    assert(texts(raw@).len() == raw@.len());
    lines
}

/// `s` without its first `n` characters.
fn after<'a>(s: &'a str, n: usize) -> (rest: &'a str)
    ensures
        rest@ == tail(s@, n as int),
{
    let len = s.unicode_len();
    if n <= len {
        s.substring_char(n, len)
    } else {
        let rest = s.substring_char(0, 0);
        assert(rest@ =~= Seq::<char>::empty());
        rest
    }
}

/// The column and the row that `p` begins with.
fn position(p: &str) -> (at: Option<(u8, u8)>)
    ensures
        at == position_of(p@),
{
    if p.unicode_len() < 3 {
        return None;
    }
    match digit(p.get_char(0)) {
        None => None,
        Some(x) => match digit(p.get_char(2)) {
            None => None,
            Some(y) => Some((x, y)),
        },
    }
}

/// The colors that the comma-separated words of `field` name.
fn colors_of(field: &str) -> (colors: Option<Vec<Color>>)
    ensures
        colors is Some <==> colors_listed(field@) is Some,
        colors is Some ==> colors.unwrap()@ == colors_listed(field@).unwrap(),
{
    let names = split_text(field, ',');
    let mut colors: Vec<Color> = Vec::new();
    let mut i: usize = 0;
    while i < names.len()
        invariant
            i <= names.len(),
            texts(names@) == split(field@, ','),
            colors_listed(field@) == colors_from(split(field@, ','), i as int, colors@),
        decreases names.len() - i,
    {
        assert(texts(names@)[i as int] == names@[i as int]@);
        match convert_string_to_color(names[i]) {
            None => {
                return None;
            },
            Some(color) => {
                colors.push(color);
            },
        }
        i += 1;
    }
    assert(texts(names@).len() == names@.len());
    Some(colors)
}

/// The borders that the comma-separated words of `field` name.
fn dirs_of(field: &str) -> (dirs: Option<Vec<u8>>)
    ensures
        dirs is Some <==> dirs_listed(field@) is Some,
        dirs is Some ==> dirs.unwrap()@ == dirs_listed(field@).unwrap(),
        dirs is Some ==> forall|i: int| 0 <= i < dirs.unwrap()@.len() ==> dirs.unwrap()@[i] < 4,
{
    let names = split_text(field, ',');
    let mut dirs: Vec<u8> = Vec::new();
    let mut i: usize = 0;
    while i < names.len()
        invariant
            i <= names.len(),
            texts(names@) == split(field@, ','),
            dirs_listed(field@) == dirs_from(split(field@, ','), i as int, dirs@),
            forall|j: int| 0 <= j < dirs@.len() ==> dirs@[j] < 4,
        decreases names.len() - i,
    {
        assert(texts(names@)[i as int] == names@[i as int]@);
        match convert_string_to_dir(names[i]) {
            None => {
                return None;
            },
            Some(dir) => {
                dirs.push(dir);
            },
        }
        i += 1;
    }
    assert(texts(names@).len() == names@.len());
    Some(dirs)
}

/// Adds the tiles that the line describes to `acc`.
fn push_tiles_of_line(line: &KeptLine, acc: &mut LevelInfo) -> (outcome: Result<(), LevelError>)
    ensures
        match tiles_of_line(line@) {
            Ok(tiles) => outcome is Ok && placements(final(acc)@) == placements(old(acc)@) + tiles,
            Err(e) => outcome == Err::<(), LevelError>(e),
        },
{
    let number = line.number;
    let at = match position(after(line.text, 2)) {
        None => {
            return Err(LevelError::BadPosition { line: number });
        },
        Some(at) => at,
    };
    let x = at.0;
    let y = at.1;
    let ghost before = placements(acc@);
    if has_prefix(line.text, "+ ") {
        let fields = split_text(line.text, ' ');
        assert(texts(fields@).len() == fields@.len());
        if fields.len() != 4 {
            return Err(LevelError::WrongFieldCount { line: number });
        }
        assert(texts(fields@)[2] == fields@[2]@ && texts(fields@)[3] == fields@[3]@);
        let colors = match colors_of(fields[2]) {
            None => {
                return Err(LevelError::BadColor { line: number });
            },
            Some(colors) => colors,
        };
        let dir = match convert_string_to_dir(fields[3]) {
            None => {
                return Err(LevelError::BadDirection { line: number });
            },
            Some(dir) => dir,
        };
        let placement = PositionedTile { tile: Tile::Trainsource(Trainsource::new(colors, dir)), x, y };
        acc.push(placement);
        assert(placements(acc@) =~= before + seq![placement@]);
        Ok(())
    } else if has_prefix(line.text, "o ") {
        let fields = split_text(line.text, ' ');
        assert(texts(fields@).len() == fields@.len());
        if fields.len() != 4 {
            return Err(LevelError::WrongFieldCount { line: number });
        }
        assert(texts(fields@)[2] == fields@[2]@ && texts(fields@)[3] == fields@[3]@);
        let colors = match colors_of(fields[2]) {
            None => {
                return Err(LevelError::BadColor { line: number });
            },
            Some(colors) => colors,
        };
        let dirs = match dirs_of(fields[3]) {
            None => {
                return Err(LevelError::BadDirection { line: number });
            },
            Some(dirs) => dirs,
        };
        let mut border_state = [false, false, false, false];
        let mut i: usize = 0;
        assert(border_state@ =~= opened(dirs@, 0));
        while i < dirs.len()
            invariant
                i <= dirs.len(),
                forall|j: int| 0 <= j < dirs@.len() ==> dirs@[j] < 4,
                border_state@ == opened(dirs@, i as int),
            decreases dirs.len() - i,
        {
            border_state[dirs[i] as usize] = true;
            i += 1;
        }
        let placement = PositionedTile {
            tile: Tile::Trainsink(Trainsink::new(colors, border_state)),
            x,
            y,
        };
        acc.push(placement);
        assert(placements(acc@) =~= before + seq![placement@]);
        Ok(())
    } else if has_prefix(line.text, "* ") {
        let positions = split_text(after(line.text, 2), ' ');
        assert(texts(positions@).len() == positions@.len());
        let ghost all = split(tail(line.text@, 2), ' ');
        let mut i: usize = 0;
        assert(placements(acc@) =~= before + Seq::<PositionedTileView>::empty());
        let ghost mut rocks = Seq::<PositionedTileView>::empty();
        while i < positions.len()
            invariant
                i <= positions.len(),
                texts(positions@) == all,
                all == split(tail(line.text@, 2), ' '),
                number == line.number,
                tiles_of_line(line@) == rocks_of(line@),
                before == placements(old(acc)@),
                placements(acc@) == before + rocks,
                rocks_from(all, 0, Seq::empty()) == rocks_from(all, i as int, rocks),
            decreases positions.len() - i,
        {
            assert(texts(positions@)[i as int] == positions@[i as int]@);
            match position(positions[i]) {
                None => {
                    return Err(LevelError::BadPosition { line: number });
                },
                Some(rock_at) => {
                    let placement = PositionedTile {
                        tile: Tile::Rock(Rock::new()),
                        x: rock_at.0,
                        y: rock_at.1,
                    };
                    let ghost held = placements(acc@);
                    acc.push(placement);
                    proof {
                        let added = rocks.push(placement@);
                        assert(placements(acc@) =~= held.push(placement@));
                        assert(held.push(placement@) =~= before + added);
                        rocks = added;
                    }
                },
            }
            i += 1;
        }
        Ok(())
    } else if has_prefix(line.text, "p ") {
        let fields = split_text(line.text, ' ');
        assert(texts(fields@).len() == fields@.len());
        if fields.len() != 4 {
            return Err(LevelError::WrongFieldCount { line: number });
        }
        assert(texts(fields@)[2] == fields@[2]@ && texts(fields@)[3] == fields@[3]@);
        let color = match convert_string_to_color(fields[2]) {
            None => {
                return Err(LevelError::BadColor { line: number });
            },
            Some(color) => color,
        };
        let dirs = match dirs_of(fields[3]) {
            None => {
                return Err(LevelError::BadDirection { line: number });
            },
            Some(dirs) => dirs,
        };
        if dirs.len() != 2 {
            return Err(LevelError::PainterNeedsTwoDirections { line: number });
        }
        let placement = PositionedTile {
            tile: Tile::Painter(Painter::new(Connection { dir1: dirs[0], dir2: dirs[1] }, color)),
            x,
            y,
        };
        acc.push(placement);
        assert(placements(acc@) =~= before + seq![placement@]);
        Ok(())
    } else if has_prefix(line.text, "s ") {
        let fields = split_text(line.text, ' ');
        assert(texts(fields@).len() == fields@.len());
        if fields.len() != 3 {
            return Err(LevelError::WrongFieldCount { line: number });
        }
        assert(texts(fields@)[2] == fields@[2]@);
        let dir = match convert_string_to_dir(fields[2]) {
            None => {
                return Err(LevelError::BadDirection { line: number });
            },
            Some(dir) => dir,
        };
        let placement = PositionedTile { tile: Tile::Splitter(Splitter::new(dir)), x, y };
        acc.push(placement);
        assert(placements(acc@) =~= before + seq![placement@]);
        Ok(())
    } else {
        Err(LevelError::BadLineStart { line: number })
    }
}

/// Reads the tiles of a level from line `p` on, up to the line that ends
/// the level, and says which line comes after that one.
fn read_tiles(lines: &Vec<KeptLine>, p: usize) -> (outcome: Result<(LevelInfo, usize), LevelError>)
    requires
        p <= lines@.len(),
    ensures
        match tiles_until_end(line_views(lines@), p as int, Seq::empty()) {
            Ok(tiles) => outcome is Ok && placements(outcome.unwrap().0@) == tiles.0
                && outcome.unwrap().1 == tiles.1 && p < outcome.unwrap().1 <= lines@.len(),
            Err(e) => outcome == Err::<(LevelInfo, usize), LevelError>(e),
        },
{
    let mut acc: LevelInfo = Vec::new();
    let mut q: usize = p;
    assert(placements(acc@) =~= Seq::<PositionedTileView>::empty());
    while q < lines.len()
        invariant
            p <= q <= lines.len(),
            tiles_until_end(line_views(lines@), p as int, Seq::empty()) == tiles_until_end(
                line_views(lines@),
                q as int,
                placements(acc@),
            ),
        decreases lines.len() - q,
    {
        assert(line_views(lines@)[q as int] == lines@[q as int]@);
        if text_eq(lines[q].text, "---") {
            return Ok((acc, q + 1));
        }
        match push_tiles_of_line(&lines[q], &mut acc) {
            Err(e) => {
                return Err(e);
            },
            Ok(_) => {},
        }
        q += 1;
    }
    Err(LevelError::UnexpectedEnd)
}

/// Reads the levels of a city from line `p` on, up to the line that ends
/// the city, and says which line comes after that one.
fn read_levels(lines: &Vec<KeptLine>, p: usize) -> (outcome: Result<(Vec<Level>, usize), LevelError>)
    requires
        p <= lines@.len(),
    ensures
        match levels_until_end(line_views(lines@), p as int, Seq::empty()) {
            Ok(levels) => outcome is Ok && level_views(outcome.unwrap().0@) == levels.0
                && outcome.unwrap().1 == levels.1 && p < outcome.unwrap().1 <= lines@.len(),
            Err(e) => outcome == Err::<(Vec<Level>, usize), LevelError>(e),
        },
{
    let mut acc: Vec<Level> = Vec::new();
    let mut q: usize = p;
    assert(level_views(acc@) =~= Seq::<LevelView>::empty());
    while q < lines.len()
        invariant
            p <= q <= lines.len(),
            levels_until_end(line_views(lines@), p as int, Seq::empty()) == levels_until_end(
                line_views(lines@),
                q as int,
                level_views(acc@),
            ),
        decreases lines.len() - q,
    {
        assert(line_views(lines@)[q as int] == lines@[q as int]@);
        let line = &lines[q];
        if text_eq(line.text, "----") {
            return Ok((acc, q + 1));
        }
        let fields = split_text(line.text, ':');
        assert(texts(fields@).len() == fields@.len());
        if fields.len() != 2 {
            return Err(LevelError::ExpectedNameAndStars { line: line.number });
        }
        assert(texts(fields@)[0] == fields@[0]@ && texts(fields@)[1] == fields@[1]@);
        let num_stars = match parse_u32(fields[1]) {
            None => {
                return Err(LevelError::BadStars { line: line.number });
            },
            Some(stars) => stars,
        };
        let (level_info, next) = match read_tiles(lines, q + 1) {
            Err(e) => {
                return Err(e);
            },
            Ok(tiles) => tiles,
        };
        let level = Level {
            level_info,
            current_progress: Vec::new(),
            name: fields[0].to_owned(),
            num_stars,
        };
        let ghost before = level_views(acc@);
        assert(level@.current_progress =~= Seq::<PositionedTileView>::empty());
        acc.push(level);
        assert(level_views(acc@) =~= before.push(level@));
        q = next;
    }
    Err(LevelError::UnexpectedEnd)
}

/// Reads the catalog of levels that `text` writes.
pub fn read_catalog(text: &str) -> (outcome: Result<Vec<City>, LevelError>)
    ensures
        match catalog_of(text@) {
            Ok(cities) => outcome is Ok && city_views(outcome.unwrap()@) == cities,
            Err(e) => outcome == Err::<Vec<City>, LevelError>(e),
        },
{
    let lines = read_lines(text);
    let mut acc: Vec<City> = Vec::new();
    let mut q: usize = 0;
    assert(city_views(acc@) =~= Seq::<CityView>::empty());
    while q < lines.len()
        invariant
            q <= lines.len(),
            line_views(lines@) == kept_lines(text@),
            catalog_of(text@) == cities_from(line_views(lines@), q as int, city_views(acc@)),
        decreases lines.len() - q,
    {
        assert(line_views(lines@)[q as int] == lines@[q as int]@);
        let line = &lines[q];
        if !has_prefix(line.text, "CITY:") {
            return Err(LevelError::ExpectedCity { line: line.number });
        }
        let (levels, next) = match read_levels(&lines, q + 1) {
            Err(e) => {
                return Err(e);
            },
            Ok(levels) => levels,
        };
        let city: City = (after(line.text, 5).to_owned(), levels);
        let ghost before = city_views(acc@);
        acc.push(city);
        assert(city_views(acc@) =~= before.push(city_view(city)));
        q = next;
    }
    Ok(acc)
}

} // verus!
