//! Plain-value helpers for the program shell: argument selection and
//! language lookup.  The shell itself (prompts, files) lives outside the
//! library; it hands these functions plain values and takes plain values
//! back.

use vstd::prelude::*;

use crate::text::{chars_eq_ignore_case, chars_vec, eq_ignore_case};

verus! {

/// The argument at `index`, when the list reaches that far.
pub fn get_argument(args: &Vec<String>, index: usize) -> (r: Option<String>)
    ensures
        match r {
            Some(s) => index < args@.len() && s@ == args@[index as int]@,
            None => index >= args@.len(),
        },
{
    if index < args.len() {
        Some(args[index].clone())
    } else {
        None
    }
}

/// Index of the first name equal to `wanted` up to ASCII letter case.
pub fn find_language(names: &Vec<String>, wanted: &str) -> (r: Option<usize>)
    ensures
        match r {
            Some(i) => i < names@.len() && eq_ignore_case(names@[i as int]@, wanted@) && forall|
                j: int,
            | 0 <= j < i ==> !eq_ignore_case(#[trigger] names@[j]@, wanted@),
            None => forall|j: int|
                0 <= j < names@.len() ==> !eq_ignore_case(#[trigger] names@[j]@, wanted@),
        },
{
    let wv = chars_vec(wanted);
    let mut i: usize = 0;
    while i < names.len()
        invariant
            wv@ == wanted@,
            i <= names@.len(),
            forall|j: int| 0 <= j < i ==> !eq_ignore_case(#[trigger] names@[j]@, wanted@),
        decreases names@.len() - i,
    {
        let nv = chars_vec(names[i].as_str());
        if chars_eq_ignore_case(&nv, &wv) {
            return Some(i);
        }
        i = i + 1;
    }
    None
}

} // verus!
