//! The commands that the admin interface hands to the master.

use vstd::prelude::*;

verus! {

/// One command for the master.
pub enum CmdType {
    /// Append this text to the log.
    Log(String),
    /// Look up the entry with this id.
    Query(u64),
}

/// A command as plain values.
pub enum CmdView {
    Log(Seq<char>),
    Query(u64),
}

impl View for CmdType {
    type V = CmdView;

    open spec fn view(&self) -> CmdView {
        match self {
            CmdType::Log(content) => CmdView::Log(content@),
            CmdType::Query(id) => CmdView::Query(*id),
        }
    }
}

/// The command that a submit request stands for: none if the request
/// carries no content.
pub fn submit_command(content: Option<String>) -> (r: Option<CmdType>)
    ensures
        content is None ==> r is None,
        content matches Some(text) ==> r is Some && r.unwrap()@ == CmdView::Log(text@),
{
    match content {
        Some(text) => Some(CmdType::Log(text)),
        None => None,
    }
}

/// The command that a query request stands for.
pub fn query_command(id: u64) -> (r: CmdType)
    ensures
        r@ == CmdView::Query(id),
{
    CmdType::Query(id)
}

} // verus!
