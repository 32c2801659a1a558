//! Commands whose run time is measured in place of a ping.

use vstd::prelude::*;
use crate::words::{space_pred, split_words, views, words};

verus! {

/// A command line split at ASCII white space into the program and its
/// arguments; `None` when the line holds no word at all.
pub fn split_command(line: &Vec<char>) -> (r: Option<(Vec<char>, Vec<Vec<char>>)>)
    ensures
        r is None <==> words(line@, space_pred(true)).len() == 0,
        r matches Some((program, args)) ==> {
            &&& program@ == words(line@, space_pred(true))[0]
            &&& views(args@) == words(line@, space_pred(true)).drop_first()
        },
{
    let mut ws = split_words(line, true);
    if ws.len() == 0 {
        return None;
    }
    let ghost all = ws@;
    let program = ws.remove(0);
    assert(views(ws@) =~= views(all).drop_first());
    Some((program, ws))
}

} // verus!
