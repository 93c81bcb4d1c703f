//! Path data: the commands of an SVG path and their text.
use crate::strings::{decimal, push_decimal};
use vstd::prelude::*;
use vstd::string::StringExecFns;

verus! {

/// A shorthand to draw rounded corners, see `PathData::arc`.
#[derive(Debug, Clone, Copy)]
pub enum Arc {
    EastToNorth,
    EastToSouth,
    NorthToEast,
    NorthToWest,
    SouthToEast,
    SouthToWest,
    WestToNorth,
    WestToSouth,
}

impl Arc {
    /// The sweep flag of the quarter circle: 1 for clockwise.
    pub open spec fn sweep(self) -> int {
        match self {
            Arc::EastToNorth => 1,
            Arc::EastToSouth => 0,
            Arc::NorthToEast => 0,
            Arc::NorthToWest => 1,
            Arc::SouthToEast => 1,
            Arc::SouthToWest => 0,
            Arc::WestToNorth => 0,
            Arc::WestToSouth => 1,
        }
    }

    /// Whether the quarter circle ends to the right of where it starts.
    pub open spec fn goes_right(self) -> bool {
        match self {
            Arc::NorthToEast | Arc::SouthToEast | Arc::WestToNorth | Arc::WestToSouth => true,
            _ => false,
        }
    }

    /// Whether the quarter circle ends below where it starts.
    pub open spec fn goes_down(self) -> bool {
        match self {
            Arc::EastToSouth | Arc::NorthToEast | Arc::NorthToWest | Arc::WestToSouth => true,
            _ => false,
        }
    }

    /// The horizontal distance from start to end for the given radius.
    pub open spec fn dx(self, radius: int) -> int {
        if self.goes_right() {
            radius
        } else {
            -radius
        }
    }

    /// The vertical distance from start to end for the given radius.
    pub open spec fn dy(self, radius: int) -> int {
        if self.goes_down() {
            radius
        } else {
            -radius
        }
    }

    fn is_clockwise(self) -> (r: bool)
        ensures
            r == (self.sweep() == 1),
            !r == (self.sweep() == 0),
    {
        match self {
            Arc::EastToNorth | Arc::NorthToWest | Arc::SouthToEast | Arc::WestToSouth => true,
            _ => false,
        }
    }

    fn ends_right(self) -> (r: bool)
        ensures
            r == self.goes_right(),
    {
        match self {
            Arc::NorthToEast | Arc::SouthToEast | Arc::WestToNorth | Arc::WestToSouth => true,
            _ => false,
        }
    }

    fn ends_down(self) -> (r: bool)
        ensures
            r == self.goes_down(),
    {
        match self {
            Arc::EastToSouth | Arc::NorthToEast | Arc::NorthToWest | Arc::WestToSouth => true,
            _ => false,
        }
    }
}

/// Selects the direction in which arrows on positive direction horizontal
/// lines point.
#[derive(Debug, Clone, Copy, PartialEq, Eq, Structural)]
pub enum HDir {
    LTR,
    RTL,
}

impl HDir {
    /// The opposite direction.
    pub open spec fn inverted(self) -> HDir {
        match self {
            HDir::LTR => HDir::RTL,
            HDir::RTL => HDir::LTR,
        }
    }

    /// Invert the direction.
    #[must_use]
    pub fn invert(self) -> (r: Self)
        ensures
            r == self.inverted(),
    {
        match self {
            HDir::LTR => HDir::RTL,
            HDir::RTL => HDir::LTR,
        }
    }
}

impl Default for HDir {
    fn default() -> (r: Self)
        ensures
            r == HDir::LTR,
    {
        HDir::LTR
    }
}

/// One command of a path.
///
/// A horizontal or vertical run longer than [`ARROW_THRESHOLD`] carries an
/// arrowhead at its middle; the arrowhead is part of the run's text and
/// not a command of its own.
#[derive(Debug, Clone, Copy)]
pub enum PathCmd {
    /// Move the cursor to an absolute position without drawing.
    MoveTo { x: i64, y: i64 },
    /// Move the cursor relative to its position without drawing.
    MoveRel { dx: i64, dy: i64 },
    /// Draw a line from the cursor to a relative position.
    LineRel { dx: i64, dy: i64 },
    /// Draw a horizontal run of the given signed length.
    Horizontal { len: i64 },
    /// Draw a vertical run of the given signed length.
    Vertical { len: i64 },
    /// Draw a quarter circle.
    Arc { radius: i64, kind: Arc },
}

/// Runs strictly longer than this many units get an arrowhead.
pub const ARROW_THRESHOLD: i64 = 50;

/// Half of `n`, rounded towards zero.
pub open spec fn half(n: int) -> int {
    if n >= 0 {
        n / 2
    } else {
        -((-n) / 2)
    }
}

/// The text of a command with two numbers, such as ` M 5 7`.
pub open spec fn pair_text(op: Seq<char>, a: int, b: int) -> Seq<char> {
    op + decimal(a) + " "@ + decimal(b)
}

/// The text of a relative move.
pub open spec fn move_text(dx: int, dy: int) -> Seq<char> {
    pair_text(" m "@, dx, dy)
}

/// The text of a relative line.
pub open spec fn line_text(dx: int, dy: int) -> Seq<char> {
    pair_text(" l "@, dx, dy)
}

/// The arrowhead on a horizontal run of length `len`, empty for short
/// runs: the cursor steps back to the middle of the run, draws the two
/// strokes of the chevron and returns to the end of the run. The chevron
/// points along the run for `HDir::LTR` and against it for `HDir::RTL`.
pub open spec fn horizontal_arrow(len: int, dir: HDir) -> Seq<char> {
    let back = match dir {
        HDir::LTR => half(len) - 3,
        HDir::RTL => half(len) + 3,
    };
    let forward = (len > ARROW_THRESHOLD) == (dir == HDir::LTR);
    let tip: int = if forward {
        -5
    } else {
        5
    };
    if len > ARROW_THRESHOLD || len < -ARROW_THRESHOLD {
        move_text(-back, 0) + line_text(tip, -5) + move_text(0, 10) + line_text(-tip, -5)
            + move_text(back, 0)
    } else {
        Seq::empty()
    }
}

/// The arrowhead on a vertical run of length `len`, empty for short runs.
pub open spec fn vertical_arrow(len: int) -> Seq<char> {
    let back = half(len) - 3;
    let tip: int = if len > ARROW_THRESHOLD {
        -5
    } else {
        5
    };
    if len > ARROW_THRESHOLD || len < -ARROW_THRESHOLD {
        move_text(0, -back) + line_text(-5, tip) + move_text(10, 0) + line_text(-5, -tip)
            + move_text(0, back)
    } else {
        Seq::empty()
    }
}

/// A run carries an arrowhead if and only if it is longer than
/// `ARROW_THRESHOLD`, in either direction.
pub proof fn lemma_arrow_threshold(len: int, dir: HDir)
    ensures
        horizontal_arrow(len, dir).len() > 0 <==> (len > ARROW_THRESHOLD || len < -ARROW_THRESHOLD),
        vertical_arrow(len).len() > 0 <==> (len > ARROW_THRESHOLD || len < -ARROW_THRESHOLD),
{
    reveal_strlit(" m ");
}

/// The text of a quarter circle.
pub open spec fn arc_text(radius: int, kind: Arc) -> Seq<char> {
    " a "@ + decimal(radius) + " "@ + decimal(radius) + " 0 0 "@ + decimal(kind.sweep()) + " "@
        + decimal(kind.dx(radius)) + " "@ + decimal(kind.dy(radius))
}

/// The text of one command, drawn with arrows pointing as `dir` says.
pub open spec fn cmd_text(c: PathCmd, dir: HDir) -> Seq<char> {
    match c {
        PathCmd::MoveTo { x, y } => pair_text(" M "@, x as int, y as int),
        PathCmd::MoveRel { dx, dy } => move_text(dx as int, dy as int),
        PathCmd::LineRel { dx, dy } => line_text(dx as int, dy as int),
        PathCmd::Horizontal { len } => " h "@ + decimal(len as int) + horizontal_arrow(
            len as int,
            dir,
        ),
        PathCmd::Vertical { len } => " v "@ + decimal(len as int) + vertical_arrow(len as int),
        PathCmd::Arc { radius, kind } => arc_text(radius as int, kind),
    }
}

/// The text of a sequence of commands: the texts of the commands in order.
pub open spec fn path_text(cmds: Seq<PathCmd>, dir: HDir) -> Seq<char>
    decreases cmds.len(),
{
    if cmds.len() == 0 {
        Seq::empty()
    } else {
        path_text(cmds.drop_last(), dir) + cmd_text(cmds.last(), dir)
    }
}

/// A rectangle of the drawing plane, its edges included.
pub struct Bounds {
    pub left: int,
    pub top: int,
    pub right: int,
    pub bottom: int,
}

impl Bounds {
    /// The rectangle with its upper left corner at `(x, y)`.
    pub open spec fn at(x: int, y: int, width: int, height: int) -> Bounds {
        Bounds { left: x, top: y, right: x + width, bottom: y + height }
    }

    /// The point lies in the rectangle or on its edge.
    pub open spec fn contains(self, p: (int, int)) -> bool {
        self.left <= p.0 <= self.right && self.top <= p.1 <= self.bottom
    }

    /// The other rectangle lies inside this one.
    pub open spec fn encloses(self, inner: Bounds) -> bool {
        self.left <= inner.left && inner.right <= self.right && self.top <= inner.top
            && inner.bottom <= self.bottom
    }
}

/// Where the cursor stands after a command that began at `at`. The
/// arrowhead on a long run leaves the cursor where the run ends.
pub open spec fn step(c: PathCmd, at: (int, int)) -> (int, int) {
    match c {
        PathCmd::MoveTo { x, y } => (x as int, y as int),
        PathCmd::MoveRel { dx, dy } => (at.0 + dx, at.1 + dy),
        PathCmd::LineRel { dx, dy } => (at.0 + dx, at.1 + dy),
        PathCmd::Horizontal { len } => (at.0 + len, at.1),
        PathCmd::Vertical { len } => (at.0, at.1 + len),
        PathCmd::Arc { radius, kind } => (at.0 + kind.dx(radius as int), at.1 + kind.dy(
            radius as int,
        )),
    }
}

/// Where the cursor stands after the commands, starting from the origin.
pub open spec fn cursor(cmds: Seq<PathCmd>) -> (int, int)
    decreases cmds.len(),
{
    if cmds.len() == 0 {
        (0, 0)
    } else {
        step(cmds.last(), cursor(cmds.drop_last()))
    }
}

/// After each of the commands the cursor stands inside `b`: every move
/// ends there, and so does every line, run and quarter circle, which
/// thereby lie inside `b` as a whole. The arrowheads on long runs are not
/// counted here: they reach up to five units to either side of their run.
pub open spec fn path_inside(cmds: Seq<PathCmd>, b: Bounds) -> bool
    decreases cmds.len(),
{
    cmds.len() == 0 || (path_inside(cmds.drop_last(), b) && b.contains(cursor(cmds)))
}

/// A path that lies inside a rectangle lies inside every larger one.
pub proof fn lemma_path_inside_larger(cmds: Seq<PathCmd>, a: Bounds, b: Bounds)
    requires
        path_inside(cmds, a),
        b.encloses(a),
    ensures
        path_inside(cmds, b),
    decreases cmds.len(),
{
    if cmds.len() > 0 {
        lemma_path_inside_larger(cmds.drop_last(), a, b);
    }
}

/// A path lies inside `b` after one more command if it did so before and
/// the command ends inside `b`.
pub proof fn lemma_path_push(cmds: Seq<PathCmd>, c: PathCmd, b: Bounds)
    ensures
        cursor(cmds.push(c)) == step(c, cursor(cmds)),
        path_inside(cmds.push(c), b) == (path_inside(cmds, b) && b.contains(
            step(c, cursor(cmds)),
        )),
{
    assert(cmds.push(c).drop_last() =~= cmds);
}

fn push_pair(out: &mut String, op: &str, a: i64, b: i64)
    ensures
        final(out)@ == old(out)@ + pair_text(op@, a as int, b as int),
{
    out.append(op);
    push_decimal(out, a);
    out.append(" ");
    push_decimal(out, b);
    assert(out@ =~= old(out)@ + pair_text(op@, a as int, b as int));
}

/// Appends the numeral of `-n`, which need not fit the type of `n`.
fn push_negated(out: &mut String, n: i64)
    ensures
        final(out)@ == old(out)@ + decimal(-(n as int)),
{
    if n == i64::MIN {
        out.append("9223372036854775808");
        proof {
            reveal_strlit("9223372036854775808");
            reveal_with_fuel(crate::strings::decimal_nat, 20);
            assert("9223372036854775808"@ =~= decimal(9223372036854775808int));
        }
    } else {
        push_decimal(out, -n);
    }
}

fn half_of(n: i64) -> (r: i64)
    ensures
        r == half(n as int),
{
    n / 2
}

fn push_horizontal_arrow(out: &mut String, len: i64, dir: HDir)
    ensures
        final(out)@ == old(out)@ + horizontal_arrow(len as int, dir),
{
    if len > ARROW_THRESHOLD || len < -ARROW_THRESHOLD {
        let back: i64 = match dir {
            HDir::LTR => half_of(len) - 3,
            HDir::RTL => half_of(len) + 3,
        };
        let forward = (len > ARROW_THRESHOLD) == (dir == HDir::LTR);
        let tip: i64 = if forward {
            -5
        } else {
            5
        };
        push_pair(out, " m ", -back, 0);
        push_pair(out, " l ", tip, -5);
        push_pair(out, " m ", 0, 10);
        push_pair(out, " l ", -tip, -5);
        push_pair(out, " m ", back, 0);
        assert(out@ =~= old(out)@ + horizontal_arrow(len as int, dir));
    } else {
        assert(out@ =~= old(out)@ + horizontal_arrow(len as int, dir));
    }
}

fn push_vertical_arrow(out: &mut String, len: i64)
    ensures
        final(out)@ == old(out)@ + vertical_arrow(len as int),
{
    if len > ARROW_THRESHOLD || len < -ARROW_THRESHOLD {
        let back: i64 = half_of(len) - 3;
        let tip: i64 = if len > ARROW_THRESHOLD {
            -5
        } else {
            5
        };
        push_pair(out, " m ", 0, -back);
        push_pair(out, " l ", -5, tip);
        push_pair(out, " m ", 10, 0);
        push_pair(out, " l ", -5, -tip);
        push_pair(out, " m ", 0, back);
        assert(out@ =~= old(out)@ + vertical_arrow(len as int));
    } else {
        assert(out@ =~= old(out)@ + vertical_arrow(len as int));
    }
}

fn push_signed(out: &mut String, n: i64, positive: bool)
    ensures
        final(out)@ == old(out)@ + decimal(
            if positive {
                n as int
            } else {
                -(n as int)
            },
        ),
{
    if positive {
        push_decimal(out, n);
    } else {
        push_negated(out, n);
    }
}

fn push_arc(out: &mut String, radius: i64, kind: Arc)
    ensures
        final(out)@ == old(out)@ + arc_text(radius as int, kind),
{
    out.append(" a ");
    push_decimal(out, radius);
    out.append(" ");
    push_decimal(out, radius);
    out.append(" 0 0 ");
    push_decimal(
        out,
        if kind.is_clockwise() {
            1
        } else {
            0
        },
    );
    out.append(" ");
    push_signed(out, radius, kind.ends_right());
    out.append(" ");
    push_signed(out, radius, kind.ends_down());
    assert(out@ =~= old(out)@ + arc_text(radius as int, kind));
}

/// Appends the text of one command.
pub fn push_cmd(out: &mut String, c: PathCmd, dir: HDir)
    ensures
        final(out)@ == old(out)@ + cmd_text(c, dir),
{
    match c {
        PathCmd::MoveTo { x, y } => push_pair(out, " M ", x, y),
        PathCmd::MoveRel { dx, dy } => push_pair(out, " m ", dx, dy),
        PathCmd::LineRel { dx, dy } => push_pair(out, " l ", dx, dy),
        PathCmd::Horizontal { len } => {
            out.append(" h ");
            push_decimal(out, len);
            push_horizontal_arrow(out, len, dir);
            assert(out@ =~= old(out)@ + cmd_text(c, dir));
        },
        PathCmd::Vertical { len } => {
            out.append(" v ");
            push_decimal(out, len);
            push_vertical_arrow(out, len);
            assert(out@ =~= old(out)@ + cmd_text(c, dir));
        },
        PathCmd::Arc { radius, kind } => push_arc(out, radius, kind),
    }
}

/// A builder-struct for SVG-Paths
#[derive(Debug, Clone)]
pub struct PathData {
    cmds: Vec<PathCmd>,
    h_dir: HDir,
}

impl View for PathData {
    type V = Seq<PathCmd>;

    /// The commands given so far.
    closed spec fn view(&self) -> Seq<PathCmd> {
        self.cmds@
    }
}

impl PathData {
    /// The direction in which the arrows of this path point.
    pub closed spec fn dir(&self) -> HDir {
        self.h_dir
    }

    /// The text of the path: what stands in the `d` attribute.
    pub open spec fn text(&self) -> Seq<char> {
        path_text(self@, self.dir())
    }

    /// Construct a empty `PathData`
    #[must_use]
    pub fn new(h_dir: HDir) -> (p: Self)
        ensures
            p@ == Seq::<PathCmd>::empty(),
            p.dir() == h_dir,
            cursor(p@) == (0int, 0int),
            forall|b: Bounds| #[trigger] path_inside(p@, b),
    {
        Self { cmds: Vec::new(), h_dir }
    }

    fn with(self, c: PathCmd) -> (p: Self)
        ensures
            p@ == self@.push(c),
            p.dir() == self.dir(),
            cursor(p@) == step(c, cursor(self@)),
            forall|b: Bounds| #[trigger]
                path_inside(p@, b) == (path_inside(self@, b) && b.contains(cursor(p@))),
    {
        let mut p = self;
        p.cmds.push(c);
        proof {
            assert forall|b: Bounds| #[trigger]
                path_inside(p@, b) == (path_inside(self@, b) && b.contains(cursor(p@))) by {
                lemma_path_push(self@, c, b);
            }
            lemma_path_push(self@, c, Bounds::at(0, 0, 0, 0));
        }
        p
    }

    /// Move the cursor to this absolute position without drawing anything
    #[must_use]
    pub fn move_to(self, x: i64, y: i64) -> (p: Self)
        ensures
            p@ == self@.push(PathCmd::MoveTo { x, y }),
            p.dir() == self.dir(),
            cursor(p@) == step(PathCmd::MoveTo { x, y }, cursor(self@)),
            forall|b: Bounds| #[trigger]
                path_inside(p@, b) == (path_inside(self@, b) && b.contains(cursor(p@))),
    {
        self.with(PathCmd::MoveTo { x, y })
    }

    /// Move the cursor relative to the current position without drawing anything
    #[must_use]
    pub fn move_rel(self, x: i64, y: i64) -> (p: Self)
        ensures
            p@ == self@.push(PathCmd::MoveRel { dx: x, dy: y }),
            p.dir() == self.dir(),
            cursor(p@) == step(PathCmd::MoveRel { dx: x, dy: y }, cursor(self@)),
            forall|b: Bounds| #[trigger]
                path_inside(p@, b) == (path_inside(self@, b) && b.contains(cursor(p@))),
    {
        self.with(PathCmd::MoveRel { dx: x, dy: y })
    }

    /// Draw a line from the cursor's current location to the given relative position
    #[must_use]
    pub fn line_rel(self, x: i64, y: i64) -> (p: Self)
        ensures
            p@ == self@.push(PathCmd::LineRel { dx: x, dy: y }),
            p.dir() == self.dir(),
            cursor(p@) == step(PathCmd::LineRel { dx: x, dy: y }, cursor(self@)),
            forall|b: Bounds| #[trigger]
                path_inside(p@, b) == (path_inside(self@, b) && b.contains(cursor(p@))),
    {
        self.with(PathCmd::LineRel { dx: x, dy: y })
    }

    /// Draw a horizontal section from the cursor's current position
    ///
    /// Stretches longer than [`ARROW_THRESHOLD`] get an arrow.
    #[must_use]
    pub fn horizontal(self, h: i64) -> (p: Self)
        ensures
            p@ == self@.push(PathCmd::Horizontal { len: h }),
            p.dir() == self.dir(),
            cursor(p@) == step(PathCmd::Horizontal { len: h }, cursor(self@)),
            forall|b: Bounds| #[trigger]
                path_inside(p@, b) == (path_inside(self@, b) && b.contains(cursor(p@))),
    {
        self.with(PathCmd::Horizontal { len: h })
    }

    /// Draw a vertical section from the cursor's current position
    ///
    /// Stretches longer than [`ARROW_THRESHOLD`] get an arrow.
    #[must_use]
    pub fn vertical(self, h: i64) -> (p: Self)
        ensures
            p@ == self@.push(PathCmd::Vertical { len: h }),
            p.dir() == self.dir(),
            cursor(p@) == step(PathCmd::Vertical { len: h }, cursor(self@)),
            forall|b: Bounds| #[trigger]
                path_inside(p@, b) == (path_inside(self@, b) && b.contains(cursor(p@))),
    {
        self.with(PathCmd::Vertical { len: h })
    }

    /// Draw a rounded corner using the given radius and direction
    #[must_use]
    pub fn arc(self, radius: i64, kind: Arc) -> (p: Self)
        ensures
            p@ == self@.push(PathCmd::Arc { radius, kind }),
            p.dir() == self.dir(),
            cursor(p@) == step(PathCmd::Arc { radius, kind }, cursor(self@)),
            forall|b: Bounds| #[trigger]
                path_inside(p@, b) == (path_inside(self@, b) && b.contains(cursor(p@))),
    {
        self.with(PathCmd::Arc { radius, kind })
    }

    /// The text of the path.
    pub fn to_string(&self) -> (s: String)
        ensures
            s@ == self.text(),
    {
        let mut s = String::new();
        let mut i: usize = 0;
        while i < self.cmds.len()
            invariant
                i <= self.cmds.len(),
                s@ == path_text(self.cmds@.take(i as int), self.h_dir),
            decreases self.cmds.len() - i,
        {
            push_cmd(&mut s, self.cmds[i], self.h_dir);
            assert(self.cmds@.take(i + 1).drop_last() =~= self.cmds@.take(i as int));
            i += 1;
        }
        assert(self.cmds@.take(i as int) =~= self.cmds@);
        s
    }
}

} // verus!
