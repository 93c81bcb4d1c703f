//! The arrowheads on long runs, as commands: what they draw, where they
//! leave the cursor and how far they reach.
use crate::notactuallysvg::path::{
    arc_text, cmd_text, cursor, half, horizontal_arrow, line_text, move_text, pair_text,
    path_inside, path_text, step, vertical_arrow, Bounds, HDir, PathCmd, ARROW_THRESHOLD,
};
use crate::strings::decimal;
use vstd::prelude::*;

verus! {

/// How far an arrowhead reaches to either side of its run.
pub const ARROW_REACH: i64 = 5;

impl Bounds {
    /// The rectangle with every edge moved outwards by `by`.
    pub open spec fn grown(self, by: int) -> Bounds {
        Bounds {
            left: self.left - by,
            top: self.top - by,
            right: self.right + by,
            bottom: self.bottom + by,
        }
    }
}

/// The text of a command without an arrowhead.
pub open spec fn plain_text(c: PathCmd) -> Seq<char> {
    match c {
        PathCmd::MoveTo { x, y } => pair_text(" M "@, x as int, y as int),
        PathCmd::MoveRel { dx, dy } => move_text(dx as int, dy as int),
        PathCmd::LineRel { dx, dy } => line_text(dx as int, dy as int),
        PathCmd::Horizontal { len } => " h "@ + decimal(len as int),
        PathCmd::Vertical { len } => " v "@ + decimal(len as int),
        PathCmd::Arc { radius, kind } => arc_text(radius as int, kind),
    }
}

/// The text of a sequence of commands without arrowheads.
pub open spec fn plain_path_text(cmds: Seq<PathCmd>) -> Seq<char>
    decreases cmds.len(),
{
    if cmds.len() == 0 {
        Seq::empty()
    } else {
        plain_path_text(cmds.drop_last()) + plain_text(cmds.last())
    }
}

/// The commands of the arrowhead on a horizontal run, none for a short
/// run: a move back to the middle of the run, the two strokes of the
/// chevron, and a move to the end of the run.
pub open spec fn horizontal_arrow_cmds(len: i64, dir: HDir) -> Seq<PathCmd> {
    let back = match dir {
        HDir::LTR => half(len as int) - 3,
        HDir::RTL => half(len as int) + 3,
    };
    let forward = (len > ARROW_THRESHOLD) == (dir == HDir::LTR);
    let tip: int = if forward {
        -5
    } else {
        5
    };
    if len > ARROW_THRESHOLD || len < -ARROW_THRESHOLD {
        seq![
            PathCmd::MoveRel { dx: (-back) as i64, dy: 0 },
            PathCmd::LineRel { dx: tip as i64, dy: -5i64 },
            PathCmd::MoveRel { dx: 0, dy: 10 },
            PathCmd::LineRel { dx: (-tip) as i64, dy: -5i64 },
            PathCmd::MoveRel { dx: back as i64, dy: 0 },
        ]
    } else {
        Seq::empty()
    }
}

/// The commands of the arrowhead on a vertical run, none for a short run.
pub open spec fn vertical_arrow_cmds(len: i64) -> Seq<PathCmd> {
    let back = half(len as int) - 3;
    let tip: int = if len > ARROW_THRESHOLD {
        -5
    } else {
        5
    };
    if len > ARROW_THRESHOLD || len < -ARROW_THRESHOLD {
        seq![
            PathCmd::MoveRel { dx: 0, dy: (-back) as i64 },
            PathCmd::LineRel { dx: -5i64, dy: tip as i64 },
            PathCmd::MoveRel { dx: 10, dy: 0 },
            PathCmd::LineRel { dx: -5i64, dy: (-tip) as i64 },
            PathCmd::MoveRel { dx: 0, dy: back as i64 },
        ]
    } else {
        Seq::empty()
    }
}

/// The commands of the arrowhead that a command carries.
pub open spec fn arrow_cmds(c: PathCmd, dir: HDir) -> Seq<PathCmd> {
    match c {
        PathCmd::Horizontal { len } => horizontal_arrow_cmds(len, dir),
        PathCmd::Vertical { len } => vertical_arrow_cmds(len),
        _ => Seq::empty(),
    }
}

/// The commands with the commands of its arrowhead behind each run.
pub open spec fn expanded(cmds: Seq<PathCmd>, dir: HDir) -> Seq<PathCmd>
    decreases cmds.len(),
{
    if cmds.len() == 0 {
        Seq::empty()
    } else {
        expanded(cmds.drop_last(), dir).push(cmds.last()) + arrow_cmds(cmds.last(), dir)
    }
}

/// Where the cursor stands after the commands when it started at `from`.
pub open spec fn walk(cmds: Seq<PathCmd>, from: (int, int)) -> (int, int)
    decreases cmds.len(),
{
    if cmds.len() == 0 {
        from
    } else {
        step(cmds.last(), walk(cmds.drop_last(), from))
    }
}

/// After each of the commands the cursor, which started at `from`, stands
/// inside `b`.
pub open spec fn walk_inside(cmds: Seq<PathCmd>, from: (int, int), b: Bounds) -> bool
    decreases cmds.len(),
{
    cmds.len() == 0 || (walk_inside(cmds.drop_last(), from, b) && b.contains(walk(cmds, from)))
}

/// The path begins with an absolute move, so that it does not depend on
/// where the cursor stood before.
pub open spec fn anchored(cmds: Seq<PathCmd>) -> bool {
    cmds.len() == 0 || cmds[0] is MoveTo
}

/// The cursor of a path is a walk from the origin.
pub proof fn lemma_walk_origin(cmds: Seq<PathCmd>, b: Bounds)
    ensures
        cursor(cmds) == walk(cmds, (0, 0)),
        path_inside(cmds, b) == walk_inside(cmds, (0, 0), b),
    decreases cmds.len(),
{
    if cmds.len() > 0 {
        lemma_walk_origin(cmds.drop_last(), b);
    }
}

/// A walk with one more command.
pub proof fn lemma_walk_push(cmds: Seq<PathCmd>, c: PathCmd, from: (int, int), b: Bounds)
    ensures
        walk(cmds.push(c), from) == step(c, walk(cmds, from)),
        walk_inside(cmds.push(c), from, b) == (walk_inside(cmds, from, b) && b.contains(
            step(c, walk(cmds, from)),
        )),
{
    assert(cmds.push(c).drop_last() =~= cmds);
}

/// A walk along two paths, one after the other.
pub proof fn lemma_walk_add(first: Seq<PathCmd>, then: Seq<PathCmd>, from: (int, int), b: Bounds)
    ensures
        walk(first + then, from) == walk(then, walk(first, from)),
        walk_inside(first + then, from, b) == (walk_inside(first, from, b) && walk_inside(
            then,
            walk(first, from),
            b,
        )),
    decreases then.len(),
{
    if then.len() == 0 {
        assert(first + then =~= first);
    } else {
        lemma_walk_add(first, then.drop_last(), from, b);
        assert((first + then).drop_last() =~= first + then.drop_last());
    }
}

/// The text of a path without arrowheads with one more command.
proof fn lemma_plain_push(cmds: Seq<PathCmd>, c: PathCmd)
    ensures
        plain_path_text(cmds.push(c)) == plain_path_text(cmds) + plain_text(c),
{
    assert(cmds.push(c).drop_last() =~= cmds);
}

/// The text of two paths without arrowheads, one after the other.
proof fn lemma_plain_add(first: Seq<PathCmd>, then: Seq<PathCmd>)
    ensures
        plain_path_text(first + then) == plain_path_text(first) + plain_path_text(then),
    decreases then.len(),
{
    if then.len() == 0 {
        assert(first + then =~= first);
        assert(plain_path_text(first) + plain_path_text(then) =~= plain_path_text(first));
    } else {
        lemma_plain_add(first, then.drop_last());
        assert((first + then).drop_last() =~= first + then.drop_last());
        assert(plain_path_text(first + then) =~= plain_path_text(first) + plain_path_text(then));
    }
}

/// The text of five commands without arrowheads.
proof fn lemma_plain_five(a: PathCmd, b: PathCmd, c: PathCmd, d: PathCmd, e: PathCmd)
    ensures
        plain_path_text(seq![a, b, c, d, e]) == plain_text(a) + plain_text(b) + plain_text(c)
            + plain_text(d) + plain_text(e),
{
    let s0 = Seq::<PathCmd>::empty();
    lemma_plain_push(s0, a);
    lemma_plain_push(s0.push(a), b);
    lemma_plain_push(s0.push(a).push(b), c);
    lemma_plain_push(s0.push(a).push(b).push(c), d);
    lemma_plain_push(s0.push(a).push(b).push(c).push(d), e);
    assert(s0.push(a).push(b).push(c).push(d).push(e) =~= seq![a, b, c, d, e]);
    assert(plain_path_text(s0) + plain_text(a) =~= plain_text(a));
}

/// The text of a command is its text without an arrowhead and then the
/// text of the commands of its arrowhead.
pub proof fn lemma_cmd_text(c: PathCmd, dir: HDir)
    ensures
        cmd_text(c, dir) == plain_text(c) + plain_path_text(arrow_cmds(c, dir)),
{
    let arrow = arrow_cmds(c, dir);
    if arrow.len() > 0 {
        lemma_plain_five(arrow[0], arrow[1], arrow[2], arrow[3], arrow[4]);
        assert(arrow =~= seq![arrow[0], arrow[1], arrow[2], arrow[3], arrow[4]]);
    }
    match c {
        PathCmd::Horizontal { len } => {
            assert(cmd_text(c, dir) =~= plain_text(c) + horizontal_arrow(len as int, dir));
            assert(horizontal_arrow(len as int, dir) =~= plain_path_text(arrow));
        },
        PathCmd::Vertical { len } => {
            assert(cmd_text(c, dir) =~= plain_text(c) + vertical_arrow(len as int));
            assert(vertical_arrow(len as int) =~= plain_path_text(arrow));
        },
        _ => {
            assert(cmd_text(c, dir) =~= plain_text(c) + plain_path_text(arrow));
        },
    }
}

/// The text of a path is the text, without arrowheads, of its commands
/// with the commands of the arrowheads among them: the arrowheads are
/// drawn by the moves and lines that `expanded` names.
pub proof fn lemma_path_text_expanded(cmds: Seq<PathCmd>, dir: HDir)
    ensures
        path_text(cmds, dir) == plain_path_text(expanded(cmds, dir)),
    decreases cmds.len(),
{
    if cmds.len() > 0 {
        let front = cmds.drop_last();
        let last = cmds.last();
        lemma_path_text_expanded(front, dir);
        lemma_cmd_text(last, dir);
        lemma_plain_push(expanded(front, dir), last);
        lemma_plain_add(expanded(front, dir).push(last), arrow_cmds(last, dir));
        assert(path_text(cmds, dir) =~= plain_path_text(expanded(cmds, dir)));
    }
}

/// A walk along five commands.
proof fn lemma_walk_five(
    a: PathCmd,
    b: PathCmd,
    c: PathCmd,
    d: PathCmd,
    e: PathCmd,
    from: (int, int),
    within: Bounds,
)
    ensures
        walk(seq![a, b, c, d, e], from) == step(e, step(d, step(c, step(b, step(a, from))))),
        walk_inside(seq![a, b, c, d, e], from, within) == (within.contains(step(a, from))
            && within.contains(step(b, step(a, from))) && within.contains(
            step(c, step(b, step(a, from))),
        ) && within.contains(step(d, step(c, step(b, step(a, from))))) && within.contains(
            step(e, step(d, step(c, step(b, step(a, from))))),
        )),
{
    let s0 = Seq::<PathCmd>::empty();
    lemma_walk_push(s0, a, from, within);
    lemma_walk_push(s0.push(a), b, from, within);
    lemma_walk_push(s0.push(a).push(b), c, from, within);
    lemma_walk_push(s0.push(a).push(b).push(c), d, from, within);
    lemma_walk_push(s0.push(a).push(b).push(c).push(d), e, from, within);
    assert(s0.push(a).push(b).push(c).push(d).push(e) =~= seq![a, b, c, d, e]);
}

/// An arrowhead leaves the cursor at the end of its run, and lies within
/// `ARROW_REACH` of every rectangle that holds both ends of the run.
pub proof fn lemma_arrow_walk(c: PathCmd, dir: HDir, from: (int, int), b: Bounds)
    requires
        b.contains(from),
        b.contains(step(c, from)),
    ensures
        walk(arrow_cmds(c, dir), step(c, from)) == step(c, from),
        walk_inside(arrow_cmds(c, dir), step(c, from), b.grown(ARROW_REACH as int)),
{
    let arrow = arrow_cmds(c, dir);
    if arrow.len() > 0 {
        lemma_walk_five(
            arrow[0],
            arrow[1],
            arrow[2],
            arrow[3],
            arrow[4],
            step(c, from),
            b.grown(ARROW_REACH as int),
        );
        assert(arrow =~= seq![arrow[0], arrow[1], arrow[2], arrow[3], arrow[4]]);
    }
}

/// The commands of the arrowheads change neither where a path ends nor,
/// by more than `ARROW_REACH`, where it goes: an anchored path that lies
/// inside a rectangle lies, with its arrowheads, inside the rectangle
/// grown by `ARROW_REACH`.
pub proof fn lemma_expanded_inside(cmds: Seq<PathCmd>, dir: HDir, b: Bounds)
    requires
        anchored(cmds),
        path_inside(cmds, b),
    ensures
        cursor(expanded(cmds, dir)) == cursor(cmds),
        path_inside(expanded(cmds, dir), b.grown(ARROW_REACH as int)),
    decreases cmds.len(),
{
    let g = b.grown(ARROW_REACH as int);
    let origin = (0int, 0int);
    if cmds.len() > 0 {
        let front = cmds.drop_last();
        let last = cmds.last();
        let arrow = arrow_cmds(last, dir);
        let body = expanded(front, dir).push(last);
        lemma_walk_origin(cmds, b);
        lemma_walk_origin(front, b);
        lemma_walk_origin(expanded(cmds, dir), g);
        lemma_walk_origin(expanded(front, dir), g);
        lemma_walk_push(expanded(front, dir), last, origin, g);
        lemma_walk_add(body, arrow, origin, g);
        if front.len() == 0 {
            assert(last == cmds[0]);
            assert(arrow =~= Seq::empty());
        } else {
            assert(front[0] == cmds[0]);
            lemma_expanded_inside(front, dir, b);
            lemma_arrow_walk(last, dir, cursor(front), b);
        }
    }
}

} // verus!
