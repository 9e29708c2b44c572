//! Paginated reads over the materialized result set.
//!
//! The result of a query lives in numbered files, each holding row groups
//! of known row counts. A read starts at a requested `(file, row group,
//! row)` position and walks forward or backward, one row at a time,
//! rolling over row-group and file boundaries, until the limit is reached
//! or the rows run out. The object-store I/O happens outside; this module
//! decides exactly which rows are read and in which order.

use vstd::prelude::*;

verus! {

/// The shape of a materialized result set: per file, the row count of each
/// row group.
#[derive(Debug, Clone, PartialEq, Eq)]
pub struct ResultSetShape {
    pub files: Vec<Vec<u64>>,
}

/// True iff the triple names an existing row.
pub open spec fn valid_pos(shape: ResultSetShape, p: (u64, u64, u64)) -> bool {
    &&& (p.0 as int) < shape.files@.len()
    &&& (p.1 as int) < shape.files@[p.0 as int]@.len()
    &&& p.2 < shape.files@[p.0 as int]@[p.1 as int]
}

/// The row after `p` in forward order: the next row of the row group, then
/// the next row group, then the next file.
pub open spec fn next_pos(shape: ResultSetShape, p: (u64, u64, u64)) -> Option<(u64, u64, u64)> {
    if p.2 + 1 < shape.files@[p.0 as int]@[p.1 as int] {
        Some((p.0, p.1, (p.2 + 1) as u64))
    } else if p.1 + 1 < shape.files@[p.0 as int]@.len() && shape.files@[p.0 as int]@[p.1 as int
        + 1] > 0 {
        Some((p.0, (p.1 + 1) as u64, 0))
    } else if p.0 + 1 < shape.files@.len() && shape.files@[p.0 as int + 1]@.len() > 0
        && shape.files@[p.0 as int + 1]@[0] > 0 {
        Some(((p.0 + 1) as u64, 0, 0))
    } else {
        None
    }
}

/// The row before `p` in backward order: the previous row, then the last
/// row of the previous row group, then the last row of the previous file.
pub open spec fn prev_pos(shape: ResultSetShape, p: (u64, u64, u64)) -> Option<(u64, u64, u64)> {
    if p.2 > 0 {
        Some((p.0, p.1, (p.2 - 1) as u64))
    } else if p.1 > 0 && shape.files@[p.0 as int]@[p.1 as int - 1] > 0 {
        Some((p.0, (p.1 - 1) as u64, (shape.files@[p.0 as int]@[p.1 as int - 1] - 1) as u64))
    } else if p.0 > 0 && shape.files@[p.0 as int - 1]@.len() > 0 && shape.files@[p.0 as int
        - 1]@.last() > 0 {
        Some(
            (
                (p.0 - 1) as u64,
                (shape.files@[p.0 as int - 1]@.len() - 1) as u64,
                (shape.files@[p.0 as int - 1]@.last() - 1) as u64,
            ),
        )
    } else {
        None
    }
}

/// One step in the requested direction.
pub open spec fn step_pos(shape: ResultSetShape, p: (u64, u64, u64), forward: bool) -> Option<
    (u64, u64, u64),
> {
    if forward {
        next_pos(shape, p)
    } else {
        prev_pos(shape, p)
    }
}

/// The starting file index after sentinel normalization: in backward mode
/// a maximal index means the last file.
pub open spec fn norm_file_idx(shape: ResultSetShape, file_idx: u64, forward: bool) -> int {
    if !forward && file_idx >= shape.files@.len() && shape.files@.len() > 0 {
        shape.files@.len() - 1
    } else {
        file_idx as int
    }
}

/// The starting row-group index after sentinel normalization.
pub open spec fn norm_group_idx(
    shape: ResultSetShape,
    f: int,
    group_idx: u64,
    forward: bool,
) -> int {
    if !forward && group_idx >= shape.files@[f]@.len() && shape.files@[f]@.len() > 0 {
        shape.files@[f]@.len() - 1
    } else {
        group_idx as int
    }
}

/// The starting row index after sentinel normalization.
pub open spec fn norm_row_idx(
    shape: ResultSetShape,
    f: int,
    g: int,
    row_idx: u64,
    forward: bool,
) -> int {
    if !forward && row_idx >= shape.files@[f]@[g] && shape.files@[f]@[g] > 0 {
        shape.files@[f]@[g] - 1
    } else {
        row_idx as int
    }
}

/// What a paginated read yields.
#[derive(Debug, Clone, PartialEq, Eq)]
pub enum DataReadOutcome {
    /// The offsets of the rows to return, in result order.
    Rows { offsets: Vec<(u64, u64, u64)> },
    /// The starting file exists but the row group does not.
    RecordRowGroupNotFound,
    /// The starting file does not exist.
    ReachedEndOfFiles,
}

impl ResultSetShape {
    fn rows_in(&self, f: u64, g: u64) -> (r: u64)
        requires
            (f as int) < self.files@.len(),
            (g as int) < self.files@[f as int]@.len(),
        ensures
            r == self.files@[f as int]@[g as int],
    {
        proof {
            vstd::std_specs::vec::axiom_spec_len(&self.files);
        }
        let file = &self.files[f as usize];
        proof {
            vstd::std_specs::vec::axiom_spec_len(file);
        }
        file[g as usize]
    }

    fn groups_in(&self, f: u64) -> (r: usize)
        requires
            (f as int) < self.files@.len(),
        ensures
            r == self.files@[f as int]@.len(),
    {
        proof {
            vstd::std_specs::vec::axiom_spec_len(&self.files);
        }
        self.files[f as usize].len()
    }

    /// One step in the requested direction, executable form.
    #[verifier::rlimit(100)]
    fn step(&self, p: (u64, u64, u64), forward: bool) -> (r: Option<(u64, u64, u64)>)
        requires
            valid_pos(*self, p),
        ensures
            r == step_pos(*self, p, forward),
            r matches Some(q) ==> valid_pos(*self, q),
    {
        proof {
            vstd::std_specs::vec::axiom_spec_len(&self.files);
        }
        let (f, g, row) = p;
        let n_groups = self.groups_in(f);
        let n_rows = self.rows_in(f, g);
        if forward {
            if row + 1 < n_rows {
                Some((f, g, row + 1))
            } else if ((g + 1) < n_groups as u64) && self.rows_in(f, g + 1) > 0 {
                Some((f, g + 1, 0))
            } else if (f + 1) < self.files.len() as u64 {
                let nf = f + 1;
                if self.groups_in(nf) > 0 && self.rows_in(nf, 0) > 0 {
                    Some((nf, 0, 0))
                } else {
                    None
                }
            } else {
                None
            }
        } else {
            if row > 0 {
                Some((f, g, row - 1))
            } else if g > 0 && self.rows_in(f, g - 1) > 0 {
                Some((f, g - 1, self.rows_in(f, g - 1) - 1))
            } else if f > 0 {
                let pf = f - 1;
                let pg = self.groups_in(pf);
                if pg > 0 {
                    let lr = self.rows_in(pf, (pg - 1) as u64);
                    proof {
                        assert(self.files@[pf as int]@.last() == self.files@[pf as int]@[
                        self.files@[pf as int]@.len() - 1]);
                    }
                    if lr > 0 {
                        Some((pf, (pg - 1) as u64, lr - 1))
                    } else {
                        None
                    }
                } else {
                    None
                }
            } else {
                None
            }
        }
    }

    /// Plans a paginated read: which rows are returned, in which order.
    ///
    /// In backward mode a maximal index means "last": last file, last row
    /// group of the file, last row of the row group. A missing starting
    /// file yields `ReachedEndOfFiles`; a missing row group or row inside
    /// an existing file yields `RecordRowGroupNotFound`. Otherwise the
    /// offsets walk from the starting position in the requested direction:
    /// each offset steps from the one before it, at most `limit` rows, and
    /// fewer only when the rows ran out.
    #[verifier::loop_isolation(false)]
    pub fn plan_read(
        &self,
        file_idx: u64,
        file_row_group_idx: u64,
        row_idx: u64,
        limit: u64,
        forward: bool,
    ) -> (r: DataReadOutcome)
        ensures
            (r == DataReadOutcome::ReachedEndOfFiles) == (norm_file_idx(*self, file_idx, forward)
                >= self.files@.len()),
            norm_file_idx(*self, file_idx, forward) < self.files@.len() ==> {
                let nf = norm_file_idx(*self, file_idx, forward);
                let ng = norm_group_idx(*self, nf, file_row_group_idx, forward);
                (r == DataReadOutcome::RecordRowGroupNotFound) == (ng >= self.files@[nf]@.len()
                    || norm_row_idx(*self, nf, ng, row_idx, forward) >= self.files@[nf]@[ng])
            },
            match r {
                DataReadOutcome::Rows { offsets } => {
                    let nf = norm_file_idx(*self, file_idx, forward);
                    let ng = norm_group_idx(*self, nf, file_row_group_idx, forward);
                    let nr = norm_row_idx(*self, nf, ng, row_idx, forward);
                    &&& offsets@.len() <= limit
                    &&& (limit > 0 ==> offsets@.len() >= 1 && offsets@[0] == (
                    nf as u64,
                    ng as u64,
                    nr as u64,
                    ))
                    &&& forall|t: int|
                        0 <= t < offsets@.len() ==> valid_pos(*self, #[trigger] offsets@[t])
                    &&& forall|t: int|
                        0 <= t < offsets@.len() - 1 ==> step_pos(
                            *self,
                            #[trigger] offsets@[t],
                            forward,
                        ) == Some(offsets@[t + 1])
                    &&& (offsets@.len() < limit && offsets@.len() > 0 ==> step_pos(
                        *self,
                        offsets@.last(),
                        forward,
                    ) is None)
                },
                DataReadOutcome::RecordRowGroupNotFound => true,
                DataReadOutcome::ReachedEndOfFiles => true,
            },
    {
        // normalize the backward sentinels
        let f: u64 = if !forward && file_idx >= self.files.len() as u64 && self.files.len() > 0 {
            (self.files.len() - 1) as u64
        } else {
            file_idx
        };
        proof {
            assert(f as int == norm_file_idx(*self, file_idx, forward));
        }
        if f >= self.files.len() as u64 {
            return DataReadOutcome::ReachedEndOfFiles;
        }
        let n_groups = self.groups_in(f);
        let g: u64 = if !forward && file_row_group_idx >= n_groups as u64 && n_groups > 0 {
            (n_groups - 1) as u64
        } else {
            file_row_group_idx
        };
        proof {
            assert(g as int == norm_group_idx(*self, f as int, file_row_group_idx, forward));
        }
        if g >= n_groups as u64 {
            return DataReadOutcome::RecordRowGroupNotFound;
        }
        let n_rows = self.rows_in(f, g);
        let row: u64 = if !forward && row_idx >= n_rows && n_rows > 0 {
            n_rows - 1
        } else {
            row_idx
        };
        proof {
            assert(row as int == norm_row_idx(*self, f as int, g as int, row_idx, forward));
        }
        if row >= n_rows {
            return DataReadOutcome::RecordRowGroupNotFound;
        }
        let mut offsets: Vec<(u64, u64, u64)> = Vec::new();
        if limit == 0 {
            return DataReadOutcome::Rows { offsets };
        }
        let mut cur: Option<(u64, u64, u64)> = Some((f, g, row));
        let mut taken: u64 = 0;
        while taken < limit && cur.is_some()
            invariant
                taken <= limit,
                offsets@.len() == taken,
                cur matches Some(p) ==> valid_pos(*self, p),
                taken > 0 ==> valid_pos(*self, offsets@[0]) && offsets@[0] == (f, g, row),
                taken == 0 ==> (cur == Some((f, g, row)) && valid_pos(*self, (f, g, row))),
                forall|t: int|
                    0 <= t < offsets@.len() ==> valid_pos(*self, #[trigger] offsets@[t]),
                forall|t: int|
                    0 <= t < offsets@.len() - 1 ==> step_pos(*self, #[trigger] offsets@[t], forward)
                        == Some(offsets@[t + 1]),
                taken > 0 ==> cur == step_pos(*self, offsets@.last(), forward),
            decreases limit - taken,
        {
            let p = cur.unwrap();
            let ghost o0 = offsets@;
            offsets.push(p);
            proof {
                assert(forall|t: int| 0 <= t < o0.len() ==> offsets@[t] == o0[t]);
                assert(offsets@.last() == p);
            }
            cur = self.step(p, forward);
            taken = taken + 1;
        }
        DataReadOutcome::Rows { offsets }
    }
}

} // verus!
