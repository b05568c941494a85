use vstd::prelude::*;

verus! {

/// The origins from which cross-origin requests are accepted.
pub open spec fn allowed_origin(origin: Seq<char>) -> bool {
    origin == "http://localhost:3000"@ || origin == "http://localhost:5173"@
}

/// Whether requests from `origin` are accepted.
pub fn is_allowed_origin(origin: &str) -> (r: bool)
    ensures
        r == allowed_origin(origin@),
{
    let o = origin.to_owned();
    let allowed: Vec<String> = vec!["http://localhost:3000".to_owned(), "http://localhost:5173".to_owned()];
    let mut i: usize = 0;
    while i < allowed.len()
        invariant
            i <= allowed.len(),
            allowed@.len() == 2,
            allowed@[0]@ == "http://localhost:3000"@,
            allowed@[1]@ == "http://localhost:5173"@,
            o@ == origin@,
            forall|j: int| 0 <= j < i ==> allowed@[j]@ != origin@,
        decreases allowed.len() - i,
    {
        if allowed[i] == o {
            return true;
        }
        i += 1;
    }
    false
}

} // verus!
