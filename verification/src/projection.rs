//! Projection mapping between a logical region and the physical region that
//! stores its data: logical column positions become physical column
//! positions through the shared column identifiers.
//!
//! The engine resolves region state and column metadata over the network;
//! the unverified shell fetches those and hands the plain column identifier
//! lists here.
use vstd::prelude::*;

verus! {

/// The position of the first physical column carrying `column_id`.
pub open spec fn physical_index_of(physical_columns: Seq<u32>, column_id: u32) -> int {
    choose|i: int|
        0 <= i < physical_columns.len() && physical_columns[i] == column_id && forall|j: int|
            0 <= j < i ==> physical_columns[j] != column_id
}

/// Every listed logical column identifier occurs among the physical ones.
pub open spec fn columns_subset(logical: Seq<u32>, physical: Seq<u32>) -> bool {
    forall|k: int| 0 <= k < logical.len() ==> physical.contains(#[trigger] logical[k])
}

/// Finds the position of a column identifier among the physical columns.
pub fn column_index_by_id(physical_columns: &Vec<u32>, column_id: u32) -> (r: Option<usize>)
    ensures
        r is Some <==> physical_columns@.contains(column_id),
        r matches Some(i) ==> i < physical_columns@.len() && physical_columns@[i as int]
            == column_id && (forall|j: int|
            0 <= j < i ==> physical_columns@[j] != column_id),
{
    let mut i: usize = 0;
    while i < physical_columns.len()
        invariant
            i <= physical_columns@.len(),
            forall|j: int| 0 <= j < i ==> physical_columns@[j] != column_id,
        decreases physical_columns@.len() - i,
    {
        if physical_columns[i] == column_id {
            return Some(i);
        }
        i = i + 1;
    }
    None
}

/// Maps a projection over the logical columns of a region to the matching
/// positions among the physical columns. Entry `k` of the result is the
/// position, among the physical columns, of the identifier that logical
/// column `origin_projection[k]` carries.
pub fn transform_projection(
    logical_column_ids: &Vec<u32>,
    physical_column_ids: &Vec<u32>,
    origin_projection: &[usize],
) -> (r: Vec<usize>)
    requires
        forall|k: int|
            0 <= k < origin_projection@.len() ==> (#[trigger] origin_projection@[k])
                < logical_column_ids@.len(),
        columns_subset(logical_column_ids@, physical_column_ids@),
    ensures
        r@.len() == origin_projection@.len(),
        forall|k: int|
            0 <= k < r@.len() ==> ({
                let id = logical_column_ids@[origin_projection@[k] as int];
                &&& (#[trigger] r@[k]) < physical_column_ids@.len()
                &&& physical_column_ids@[r@[k] as int] == id
                &&& (forall|j: int| 0 <= j < r@[k] ==> physical_column_ids@[j] != id)
            }),
{
    let mut r: Vec<usize> = Vec::with_capacity(origin_projection.len());
    let mut k: usize = 0;
    while k < origin_projection.len()
        invariant
            k <= origin_projection@.len(),
            r@.len() == k,
            forall|k2: int|
                0 <= k2 < origin_projection@.len() ==> (#[trigger] origin_projection@[k2])
                    < logical_column_ids@.len(),
            columns_subset(logical_column_ids@, physical_column_ids@),
            forall|k2: int|
                0 <= k2 < k ==> ({
                    let id = logical_column_ids@[origin_projection@[k2] as int];
                    &&& (#[trigger] r@[k2]) < physical_column_ids@.len()
                    &&& physical_column_ids@[r@[k2] as int] == id
                    &&& (forall|j: int| 0 <= j < r@[k2] ==> physical_column_ids@[j] != id)
                }),
        decreases origin_projection@.len() - k,
    {
        let column_id = logical_column_ids[origin_projection[k]];
        proof {
            assert(physical_column_ids@.contains(logical_column_ids@[origin_projection@[
                k as int] as int]));
        }
        match column_index_by_id(physical_column_ids, column_id) {
            Some(i) => {
                r.push(i);
            },
            None => {
                // unreachable: the logical columns are a subset of the
                // physical ones
                r.push(0);
            },
        }
        k = k + 1;
    }
    r
}

/// The default projection of a logical region: every logical column, mapped
/// to its physical position in order.
pub fn default_projection(logical_column_ids: &Vec<u32>, physical_column_ids: &Vec<u32>) -> (r:
    Vec<usize>)
    requires
        columns_subset(logical_column_ids@, physical_column_ids@),
    ensures
        r@.len() == logical_column_ids@.len(),
        forall|k: int|
            0 <= k < r@.len() ==> ({
                let id = logical_column_ids@[k];
                &&& (#[trigger] r@[k]) < physical_column_ids@.len()
                &&& physical_column_ids@[r@[k] as int] == id
                &&& (forall|j: int| 0 <= j < r@[k] ==> physical_column_ids@[j] != id)
            }),
{
    let mut r: Vec<usize> = Vec::with_capacity(logical_column_ids.len());
    let mut k: usize = 0;
    while k < logical_column_ids.len()
        invariant
            k <= logical_column_ids@.len(),
            r@.len() == k,
            columns_subset(logical_column_ids@, physical_column_ids@),
            forall|k2: int|
                0 <= k2 < k ==> ({
                    let id = logical_column_ids@[k2];
                    &&& (#[trigger] r@[k2]) < physical_column_ids@.len()
                    &&& physical_column_ids@[r@[k2] as int] == id
                    &&& (forall|j: int| 0 <= j < r@[k2] ==> physical_column_ids@[j] != id)
                }),
        decreases logical_column_ids@.len() - k,
    {
        let column_id = logical_column_ids[k];
        proof {
            assert(physical_column_ids@.contains(logical_column_ids@[k as int]));
        }
        match column_index_by_id(physical_column_ids, column_id) {
            Some(i) => {
                r.push(i);
            },
            None => {
                // unreachable: the logical columns are a subset of the
                // physical ones
                r.push(0);
            },
        }
        k = k + 1;
    }
    r
}

} // verus!
