//! Text layout of a two-dimensional array: one row per line between
//! brackets, the columns of a row separated by tabs.

use vstd::prelude::*;
use vstd::string::*;
use crate::array::Array;
use crate::shape::lemma_volume_of_matrix;

verus! {

/// The cells of one row, separated by tabs.
pub open spec fn joined(cells: Seq<Seq<char>>) -> Seq<char>
    decreases cells.len(),
{
    if cells.len() == 0 {
        Seq::empty()
    } else if cells.len() == 1 {
        cells[0]
    } else {
        joined(cells.drop_last()) + seq!['\t'] + cells.last()
    }
}

/// One row as a line: `[`, the cells separated by tabs, `]` and a newline.
pub open spec fn row_text(cells: Seq<Seq<char>>) -> Seq<char> {
    seq!['['] + joined(cells) + seq![']', '\n']
}

/// The lines of the first `rows` rows of a matrix with `cols` columns whose
/// cells are given in row-major order.
pub open spec fn rows_text(cells: Seq<Seq<char>>, rows: nat, cols: nat) -> Seq<char>
    decreases rows,
{
    if rows == 0 {
        Seq::empty()
    } else {
        rows_text(cells, (rows - 1) as nat, cols) + row_text(
            cells.subrange((rows - 1) * cols, (rows * cols) as int),
        )
    }
}

/// The whole matrix: an opening line `[`, the rows, a closing line `]`.
pub open spec fn matrix_text(cells: Seq<Seq<char>>, rows: nat, cols: nat) -> Seq<char> {
    seq!['[', '\n'] + rows_text(cells, rows, cols) + seq![']', '\n']
}

/// The texts of the given strings.
pub open spec fn texts(cells: Seq<String>) -> Seq<Seq<char>> {
    Seq::new(cells.len(), |i: int| cells[i]@)
}

impl<T> Array<T> {
    /// Lays out a two-dimensional array as text, given the text of each
    /// element in row-major order.
    ///
    /// Returns `None` exactly when the array does not have two dimensions or
    /// `cells` does not hold one text per element.
    pub fn render(&self, cells: &[String]) -> (text: Option<String>)
        requires
            self.wf(),
        ensures
            match text {
                Some(t) => {
                    &&& self@.shape.len() == 2
                    &&& cells@.len() == self@.buffer.len()
                    &&& t@ == matrix_text(
                        texts(cells@),
                        self@.shape[0] as nat,
                        self@.shape[1] as nat,
                    )
                },
                None => self@.shape.len() != 2 || cells@.len() != self@.buffer.len(),
            },
    {
        let shape = self.shape();
        let count: usize = self.buffer().len();
        if shape.len() != 2 || cells.len() != count {
            return None;
        }
        let rows: usize = shape[0];
        let cols: usize = shape[1];
        let ghost all = texts(cells@);
        proof {
            lemma_volume_of_matrix(shape@);
        }
        let mut out = String::new();
        out.append("[\n");
        proof {
            reveal_strlit("[\n");
            assert(out@ =~= seq!['[', '\n'] + rows_text(all, 0, cols as nat));
        }
        let mut row: usize = 0;
        while row < rows
            invariant
                row <= rows,
                count == rows * cols,
                cells@.len() == count,
                all == texts(cells@),
                out@ == seq!['[', '\n'] + rows_text(all, row as nat, cols as nat),
            decreases rows - row,
        {
            proof {
                assert(row * cols + cols <= rows * cols) by (nonlinear_arith)
                    requires
                        row < rows,
                ;
            }
            let start: usize = row * cols;
            let ghost line = all.subrange(start as int, start + cols);
            let ghost before = out@;
            out.append("[");
            proof {
                reveal_strlit("[");
                assert(line.take(0) =~= Seq::<Seq<char>>::empty());
                assert(out@ =~= before + seq!['['] + joined(line.take(0)));
            }
            let mut col: usize = 0;
            while col < cols
                invariant
                    col <= cols,
                    start + cols <= count,
                    cells@.len() == count,
                    all == texts(cells@),
                    line == all.subrange(start as int, start + cols),
                    out@ == before + seq!['['] + joined(line.take(col as int)),
                decreases cols - col,
            {
                let ghost head = line.take(col as int);
                let ghost next = line.take(col + 1);
                proof {
                    reveal_strlit("\t");
                    assert(next.drop_last() =~= head);
                    assert(next.last() == cells@[start + col]@);
                    assert(joined(next) =~= if col == 0 {
                        next.last()
                    } else {
                        joined(head) + seq!['\t'] + next.last()
                    });
                }
                if col > 0 {
                    out.append("\t");
                }
                out.append(cells[start + col].as_str());
                col = col + 1;
                proof {
                    assert(out@ =~= before + seq!['['] + joined(next));
                }
            }
            out.append("]\n");
            proof {
                reveal_strlit("]\n");
                assert(line.take(cols as int) =~= line);
                assert((row + 1) * cols == start + cols) by (nonlinear_arith)
                    requires
                        start == row * cols,
                ;
                assert(((row + 1) as nat - 1) * cols == start);
                assert(rows_text(all, (row + 1) as nat, cols as nat) == rows_text(
                    all,
                    row as nat,
                    cols as nat,
                ) + row_text(line));
                assert(out@ =~= seq!['[', '\n'] + rows_text(all, (row + 1) as nat, cols as nat));
            }
            row = row + 1;
        }
        out.append("]\n");
        proof {
            reveal_strlit("]\n");
            assert(out@ =~= matrix_text(all, rows as nat, cols as nat));
        }
        Some(out)
    }
}

} // verus!
