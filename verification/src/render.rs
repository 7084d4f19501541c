//! The diagnostic text form of a tensor: nested bracketed lists that follow
//! the shape, one line per innermost row.

use vstd::prelude::*;
use vstd::string::StringExecFns;
use crate::shape::{extent, lemma_extent_skip, lemma_volume_skip, row_major, volume};
use crate::index::get_postfix_prod;

verus! {

/// A run of `n` blanks.
pub open spec fn blanks(n: nat) -> Seq<char>
    decreases n,
{
    if n == 0 {
        Seq::empty()
    } else {
        blanks((n - 1) as nat) + " "@
    }
}

/// The first `count` cells of a row of `width` cells that starts at `pos`,
/// each but the last of the row followed by a comma and a blank.
pub open spec fn row_text(cells: Seq<String>, pos: int, count: nat, width: nat) -> Seq<char>
    decreases count,
{
    if count == 0 {
        Seq::empty()
    } else {
        let head = row_text(cells, pos, (count - 1) as nat, width) + cells[pos + count - 1]@;
        if count != width {
            head + ", "@
        } else {
            head
        }
    }
}

/// The list at `depth` that starts at cell `pos`: a line break, the indent,
/// an opening bracket, then either the row of cells or the nested lists
/// followed by a line break and the indent, and a closing bracket with a
/// comma.
pub open spec fn block_text(
    shape: Seq<usize>,
    depth: nat,
    cells: Seq<String>,
    pos: int,
    indent: nat,
) -> Seq<char>
    decreases shape.len() - depth, 1nat, 0nat,
{
    if depth >= shape.len() {
        Seq::empty()
    } else {
        let open = "\n"@ + blanks(indent) + "["@;
        if depth == shape.len() - 1 {
            open + row_text(cells, pos, shape[depth as int] as nat, shape[depth as int] as nat)
                + "],"@
        } else {
            open + nested_text(shape, depth, cells, pos, indent, shape[depth as int] as nat) + "\n"@
                + blanks(indent) + "],"@
        }
    }
}

/// The first `count` lists nested in the list at `depth` that starts at
/// cell `pos`, one after the other.
pub open spec fn nested_text(
    shape: Seq<usize>,
    depth: nat,
    cells: Seq<String>,
    pos: int,
    indent: nat,
    count: nat,
) -> Seq<char>
    decreases shape.len() - depth, 0nat, count,
{
    if depth >= shape.len() || count == 0 {
        Seq::empty()
    } else {
        nested_text(shape, depth, cells, pos, indent, (count - 1) as nat) + block_text(
            shape,
            depth + 1,
            cells,
            pos + (count - 1) * volume(shape.skip(depth as int + 1)),
            indent + 2,
        )
    }
}

/// The text of a tensor of the given shape whose elements, in row-major
/// order, are shown as `cells`. A tensor without axes shows its one cell,
/// a comma and a blank. The text ends with a line break.
pub open spec fn rendering(shape: Seq<usize>, cells: Seq<String>) -> Seq<char> {
    if shape.len() == 0 {
        cells[0]@ + ", "@ + "\n"@
    } else {
        block_text(shape, 0, cells, 0, 0) + "\n"@
    }
}

/// Appends a run of blanks.
fn push_blanks(out: &mut String, n: u8)
    ensures
        final(out)@ == old(out)@ + blanks(n as nat),
{
    let mut i: u8 = 0;
    assert(out@ =~= old(out)@ + blanks(0));
    while i < n
        invariant
            i <= n,
            out@ == old(out)@ + blanks(i as nat),
        decreases n - i,
    {
        out.append(" ");
        i += 1;
        assert(out@ =~= old(out)@ + blanks(i as nat));
    }
}

/// Appends the list at `depth` that starts at cell `pos`.
fn push_block(
    shape: &Vec<usize>,
    strides: &Vec<usize>,
    depth: usize,
    cells: &Vec<String>,
    pos: usize,
    indent: u8,
    out: &mut String,
)
    requires
        depth < shape.len() < 128,
        indent == 2 * depth,
        strides@ == row_major(shape@),
        extent(shape@) <= usize::MAX,
        pos + volume(shape@.skip(depth as int)) <= cells.len(),
    ensures
        final(out)@ == old(out)@ + block_text(shape@, depth as nat, cells@, pos as int, indent as nat),
    decreases shape.len() - depth,
{
    let ghost before = out@;
    let width = shape[depth];
    proof {
        lemma_volume_skip(shape@, depth as int);
        lemma_extent_skip(shape@, depth + 1);
    }
    out.append("\n");
    push_blanks(out, indent);
    out.append("[");
    let ghost open = "\n"@ + blanks(indent as nat) + "["@;
    assert(out@ =~= before + open);
    if depth == shape.len() - 1 {
        proof {
            assert(shape@.skip(depth + 1) =~= Seq::<usize>::empty());
            assert(volume(shape@.skip(depth as int)) == width as nat * 1);
        }
        let mut j: usize = 0;
        assert(out@ =~= before + open + row_text(cells@, pos as int, 0, width as nat));
        while j < width
            invariant
                j <= width,
                pos + width <= cells.len(),
                out@ == before + open + row_text(cells@, pos as int, j as nat, width as nat),
            decreases width - j,
        {
            out.append(cells[pos + j].as_str());
            j += 1;
            if j != width {
                out.append(", ");
            }
            assert(out@ =~= before + open + row_text(cells@, pos as int, j as nat, width as nat));
        }
        out.append("],");
        assert(out@ =~= before + block_text(
            shape@,
            depth as nat,
            cells@,
            pos as int,
            indent as nat,
        ));
    } else {
        let step = strides[depth];
        let ghost inner = volume(shape@.skip(depth + 1));
        assert(step == inner);
        let mut i: usize = 0;
        let mut at: usize = pos;
        assert(out@ =~= before + open + nested_text(
            shape@,
            depth as nat,
            cells@,
            pos as int,
            indent as nat,
            0,
        ));
        while i < width
            invariant
                i <= width,
                depth + 1 < shape.len() < 128,
                indent == 2 * depth,
                strides@ == row_major(shape@),
                extent(shape@) <= usize::MAX,
                step == inner,
                inner == volume(shape@.skip(depth + 1)),
                pos + width as nat * inner <= cells.len(),
                at == pos + i * inner,
                out@ == before + open + nested_text(
                    shape@,
                    depth as nat,
                    cells@,
                    pos as int,
                    indent as nat,
                    i as nat,
                ),
            decreases width - i,
        {
            proof {
                assert((i + 1) * inner <= width as nat * inner && (i + 1) * inner == i * inner
                    + inner) by (nonlinear_arith)
                    requires
                        i < width,
                ;
            }
            push_block(shape, strides, depth + 1, cells, at, indent + 2, out);
            at = at + step;
            i += 1;
            assert(out@ =~= before + open + nested_text(
                shape@,
                depth as nat,
                cells@,
                pos as int,
                indent as nat,
                i as nat,
            ));
        }
        out.append("\n");
        push_blanks(out, indent);
        out.append("],");
        assert(out@ =~= before + block_text(
            shape@,
            depth as nat,
            cells@,
            pos as int,
            indent as nat,
        ));
    }
}

/// The text of a tensor of the given shape whose elements, in row-major
/// order, are shown as `cells`.
pub fn render(shape: &Vec<usize>, cells: &Vec<String>) -> (text: String)
    requires
        shape.len() < 128,
        extent(shape@) <= usize::MAX,
        cells.len() == volume(shape@),
    ensures
        text@ == rendering(shape@, cells@),
{
    let mut out = String::new();
    if shape.len() == 0 {
        out.append(cells[0].as_str());
        out.append(", ");
    } else {
        let strides = get_postfix_prod(shape);
        assert(shape@.skip(0) =~= shape@);
        push_block(shape, &strides, 0, cells, 0, 0, &mut out);
    }
    out.append("\n");
    assert(out@ =~= rendering(shape@, cells@));
    out
}

} // verus!
