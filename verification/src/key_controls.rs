//! The keyboard control listing: for each movement key, the pairs of directions its blocks on
//! the movement table stand for, then the restart and undo keys.
use crate::movement_table::order_direction;
use crate::sokoban::Direction;
use vstd::prelude::*;

verus! {

/// The keys that can be placed on a keyboard movement table.
#[derive(Copy, Clone, Debug, PartialEq, Eq, Hash, Structural)]
pub enum ControlKey {
    W,
    A,
    S,
    D,
}

/// An image of the control listing.
#[derive(Copy, Clone, Debug, PartialEq, Eq, Hash, Structural)]
pub enum ControlImage {
    /// The picture of a key.
    Key(ControlKey),
    /// The arrow of a direction.
    Arrow(Direction),
}

/// An element of a row of the control listing.
#[derive(Copy, Clone, Debug, PartialEq, Eq, Hash)]
pub enum ControlNode {
    Text(&'static str),
    Image(ControlImage),
}

/// The direction arrows that key `k` stands for on the first `n` cells of the table, in row-major
/// order: for each cell holding `k`, the arrow of its rank, then the arrow of its file.
pub open spec fn key_arrows(table: [[Option<ControlKey>; 4]; 4], k: ControlKey, n: int) -> Seq<
    ControlNode,
>
    decreases n,
{
    if n <= 0 {
        Seq::empty()
    } else {
        let c = n - 1;
        let rest = key_arrows(table, k, c);
        if table@[c / 4]@[c % 4] == Some(k) {
            rest + seq![
                ControlNode::Image(ControlImage::Arrow(order_direction(c / 4))),
                ControlNode::Image(ControlImage::Arrow(order_direction(c % 4))),
            ]
        } else {
            rest
        }
    }
}

/// The row of the listing for key `k`: its picture, an equals sign, then its arrows.
pub open spec fn key_row(table: [[Option<ControlKey>; 4]; 4], k: ControlKey) -> Seq<ControlNode> {
    seq![ControlNode::Image(ControlImage::Key(k)), ControlNode::Text("=")] + key_arrows(
        table,
        k,
        16,
    )
}

/// The key of row `i` of the listing.
pub open spec fn row_key(i: int) -> ControlKey {
    if i == 0 {
        ControlKey::W
    } else if i == 1 {
        ControlKey::A
    } else if i == 2 {
        ControlKey::S
    } else {
        ControlKey::D
    }
}

/// The arrow of rank or file `i` of the table.
fn order_arrow(i: usize) -> (n: ControlNode)
    requires
        i < 4,
    ensures
        n == ControlNode::Image(ControlImage::Arrow(order_direction(i as int))),
{
    let d = if i == 0 {
        Direction::Up
    } else if i == 1 {
        Direction::Left
    } else if i == 2 {
        Direction::Down
    } else {
        Direction::Right
    };
    ControlNode::Image(ControlImage::Arrow(d))
}

/// The row of the listing for key `k`.
fn key_controls(table: &[[Option<ControlKey>; 4]; 4], k: ControlKey) -> (row: Vec<ControlNode>)
    ensures
        row@ == key_row(*table, k),
{
    let mut row: Vec<ControlNode> = Vec::new();
    row.push(ControlNode::Image(ControlImage::Key(k)));
    row.push(ControlNode::Text("="));
    let ghost head = row@;
    let mut c: usize = 0;
    while c < 16
        invariant
            0 <= c <= 16,
            head == seq![ControlNode::Image(ControlImage::Key(k)), ControlNode::Text("=")],
            row@ == head + key_arrows(*table, k, c as int),
        decreases 16 - c,
    {
        let rank = c / 4;
        let file = c % 4;
        if table[rank][file] == Some(k) {
            row.push(order_arrow(rank));
            row.push(order_arrow(file));
        }
        assert(row@ =~= head + key_arrows(*table, k, c + 1));
        c = c + 1;
    }
    row
}

/// The control listing of a keyboard movement table: a row for each of W, A, S and D with the
/// direction pairs of its blocks on the table, then the rows for restarting (R) and undoing (Z).
pub fn update_control_display(table: &[[Option<ControlKey>; 4]; 4]) -> (rows: Vec<
    Vec<ControlNode>,
>)
    ensures
        rows.len() == 6,
        forall|i: int| 0 <= i < 4 ==> #[trigger] rows[i]@ == key_row(*table, row_key(i)),
        rows[4]@ == seq![ControlNode::Text("R"), ControlNode::Text("="), ControlNode::Text("restart")],
        rows[5]@ == seq![ControlNode::Text("Z"), ControlNode::Text("="), ControlNode::Text("undo")],
{
    let mut rows: Vec<Vec<ControlNode>> = Vec::new();
    rows.push(key_controls(table, ControlKey::W));
    rows.push(key_controls(table, ControlKey::A));
    rows.push(key_controls(table, ControlKey::S));
    rows.push(key_controls(table, ControlKey::D));
    let mut restart: Vec<ControlNode> = Vec::new();
    restart.push(ControlNode::Text("R"));
    restart.push(ControlNode::Text("="));
    restart.push(ControlNode::Text("restart"));
    let mut undo: Vec<ControlNode> = Vec::new();
    undo.push(ControlNode::Text("Z"));
    undo.push(ControlNode::Text("="));
    undo.push(ControlNode::Text("undo"));
    assert(restart@ =~= seq![ControlNode::Text("R"), ControlNode::Text("="), ControlNode::Text("restart")]);
    assert(undo@ =~= seq![ControlNode::Text("Z"), ControlNode::Text("="), ControlNode::Text("undo")]);
    rows.push(restart);
    rows.push(undo);
    rows
}

} // verus!
