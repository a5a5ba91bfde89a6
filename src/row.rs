//! Row messages of the grid document kind.
use vstd::prelude::*;
use std::collections::HashMap;

verus! {

/// Why a row request was refused.
#[derive(Clone, Copy, Debug, PartialEq, Eq, Structural)]
pub enum ErrorCode {
    DatabaseIdIsEmpty,
    RowIdIsEmpty,
    ViewIdIsInvalid,
}

/// A row: its id and its height.
#[derive(Debug, Default, PartialEq, Eq)]
pub struct RowPB {
    pub id: String,
    pub height: i32,
}

/// A row that may be missing.
#[derive(Debug, Default)]
pub struct OptionalRowPB {
    pub row: Option<RowPB>,
}

/// A list of rows.
#[derive(Debug, Default)]
pub struct RepeatedRowPB {
    pub items: Vec<RowPB>,
}

/// A row that was inserted, with the index it was inserted at, if any.
#[derive(Debug, Default)]
pub struct InsertedRowPB {
    pub row: RowPB,
    pub index: Option<i32>,
    pub is_new: bool,
}

impl InsertedRowPB {
    /// An insertion of `row` at no particular index.
    pub fn new(row: RowPB) -> (r: InsertedRowPB)
        ensures
            r.row == row,
            r.index is None,
            !r.is_new,
    {
        InsertedRowPB { row, index: None, is_new: false }
    }

    /// An insertion of `row` at `index`.
    pub fn with_index(row: RowPB, index: i32) -> (r: InsertedRowPB)
        ensures
            r.row == row,
            r.index == Some(index),
            !r.is_new,
    {
        InsertedRowPB { row, index: Some(index), is_new: false }
    }
}

/// A row whose cells in `field_ids` were updated.
#[derive(Debug, Default)]
pub struct UpdatedRowPB {
    pub row: RowPB,
    pub field_ids: Vec<String>,
}

/// A row of a view, as requested.
#[derive(Debug, Default)]
pub struct RowIdPB {
    pub view_id: String,
    pub row_id: String,
}

/// A row of a view, checked.
#[derive(Debug)]
pub struct RowIdParams {
    pub view_id: String,
    pub row_id: String,
}

/// A row of a block.
#[derive(Debug, Default)]
pub struct BlockRowIdPB {
    pub block_id: String,
    pub row_id: String,
}

/// The cell contents of a new row, by field id.
#[derive(Debug, Default)]
pub struct RowDataPB {
    pub cell_data_by_field_id: HashMap<String, String>,
}

/// A request to create a row, as received.
#[derive(Debug, Default)]
pub struct CreateRowPayloadPB {
    pub view_id: String,
    pub start_row_id: Option<String>,
    pub group_id: Option<String>,
    pub data: Option<RowDataPB>,
}

/// A request to create a row, checked.
#[derive(Debug, Default)]
pub struct CreateRowParams {
    pub view_id: String,
    pub start_row_id: Option<String>,
    pub group_id: Option<String>,
    pub cell_data_by_field_id: Option<HashMap<String, String>>,
}

impl RowIdPB {
    /// Checks that both ids are present.
    pub fn into_params(self) -> (r: Result<RowIdParams, ErrorCode>)
        ensures
            self.view_id@.len() == 0 ==> r == Err::<RowIdParams, ErrorCode>(
                ErrorCode::DatabaseIdIsEmpty,
            ),
            self.view_id@.len() > 0 && self.row_id@.len() == 0 ==> r == Err::<
                RowIdParams,
                ErrorCode,
            >(ErrorCode::RowIdIsEmpty),
            self.view_id@.len() > 0 && self.row_id@.len() > 0 ==> r is Ok && r->Ok_0.view_id@
                == self.view_id@ && r->Ok_0.row_id@ == self.row_id@,
    {
        if self.view_id.as_str().unicode_len() == 0 {
            return Err(ErrorCode::DatabaseIdIsEmpty);
        }
        if self.row_id.as_str().unicode_len() == 0 {
            return Err(ErrorCode::RowIdIsEmpty);
        }
        Ok(RowIdParams { view_id: self.view_id, row_id: self.row_id })
    }
}

impl CreateRowPayloadPB {
    /// Checks that the view id is present, and the start row id when one is
    /// given.
    pub fn into_params(self) -> (r: Result<CreateRowParams, ErrorCode>)
        ensures
            self.view_id@.len() == 0 ==> r == Err::<CreateRowParams, ErrorCode>(
                ErrorCode::ViewIdIsInvalid,
            ),
            self.view_id@.len() > 0 && self.start_row_id is Some
                && self.start_row_id->Some_0@.len() == 0 ==> r == Err::<
                CreateRowParams,
                ErrorCode,
            >(ErrorCode::RowIdIsEmpty),
            self.view_id@.len() > 0 && (self.start_row_id is None
                || self.start_row_id->Some_0@.len() > 0) ==> r is Ok && r->Ok_0.view_id@
                == self.view_id@ && r->Ok_0.start_row_id == self.start_row_id
                && r->Ok_0.group_id == self.group_id && (r->Ok_0.cell_data_by_field_id is Some
                <==> self.data is Some),
    {
        if self.view_id.as_str().unicode_len() == 0 {
            return Err(ErrorCode::ViewIdIsInvalid);
        }
        match &self.start_row_id {
            Some(id) => {
                if id.as_str().unicode_len() == 0 {
                    return Err(ErrorCode::RowIdIsEmpty);
                }
            },
            None => {},
        }
        let cell_data_by_field_id = match self.data {
            Some(data) => Some(data.cell_data_by_field_id),
            None => None,
        };
        Ok(CreateRowParams {
            view_id: self.view_id,
            start_row_id: self.start_row_id,
            group_id: self.group_id,
            cell_data_by_field_id,
        })
    }
}

} // verus!
