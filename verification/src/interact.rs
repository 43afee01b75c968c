//! The decisions behind the console prompts: which menu entry a typed
//! line selects.  Reading and printing happen outside the library.

use vstd::prelude::*;

use crate::classify::{parse_page_index, spec_parse_u32};

verus! {

/// Which of `option_count` menu entries (numbered from 1) the typed,
/// already trimmed line selects: the entry's zero-based position, or
/// nothing for anything that is not a number between 1 and the count.
pub fn menu_choice(input: &str, option_count: usize) -> (r: Option<usize>)
    ensures
        r == (match spec_parse_u32(input@) {
            Some(v) => if 1 <= v && v as int <= option_count {
                Some((v - 1) as usize)
            } else {
                None::<usize>
            },
            None => None::<usize>,
        }),
{
    match parse_page_index(input) {
        Ok(v) => {
            if 1 <= v && (v as usize) <= option_count {
                Some((v - 1) as usize)
            } else {
                None
            }
        },
        Err(_) => None,
    }
}

} // verus!
