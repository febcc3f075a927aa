use vstd::prelude::*;
use vstd::string::*;

use crate::error::{AppError, AppResult};

verus! {

/// Largest number of lines one submission may carry.
pub const MAX_LINES: usize = 2000;

/// The message given when `label` names a submission with too many lines.
pub open spec fn too_many_lines_message(label: Seq<char>) -> Seq<char> {
    label + "一次最多提交 2000 行"@
}

/// Accepts a submission of `count` lines when it is at most 2000 lines long.
pub fn validate_line_count(count: usize, label: &str) -> (r: AppResult<()>)
    ensures
        count <= MAX_LINES <==> r is Ok,
        r matches Err(e) ==> (e matches AppError::PayloadTooLarge(m) && m@
            == too_many_lines_message(label@)),
{
    if count > MAX_LINES {
        let message = String::from_str(label).concat("一次最多提交 2000 行");
        return Err(AppError::PayloadTooLarge(message));
    }
    Ok(())
}

} // verus!
