pub mod i18n;
pub mod validated_json;

use vstd::prelude::*;

verus! {

/// The message of one validation problem: its own, or `<field> is invalid`.
pub open spec fn problem_message(field: Seq<char>, message: Option<Seq<char>>) -> Seq<char> {
    match message {
        Some(m) => m,
        None => field + " is invalid"@,
    }
}

/// The messages of each field's validation problems. `errors` lists each
/// field with the messages its problems carry, if any.
pub fn format_validation_errors(errors: &Vec<(String, Vec<Option<String>>)>) -> (r: Vec<
    (String, Vec<String>),
>)
    ensures
        r@.len() == errors@.len(),
        forall|k: int|
            0 <= k < errors@.len() ==> {
                &&& (#[trigger] r@[k]).0 == errors@[k].0
                &&& r@[k].1@.len() == errors@[k].1@.len()
                &&& forall|j: int|
                    0 <= j < errors@[k].1@.len() ==> (#[trigger] r@[k].1@[j])@ == problem_message(
                        errors@[k].0@,
                        errors@[k].1@[j].deep_view(),
                    )
            },
{
    let mut out: Vec<(String, Vec<String>)> = Vec::new();
    let mut k: usize = 0;
    while k < errors.len()
        invariant
            k <= errors@.len(),
            out@.len() == k,
            forall|i: int|
                0 <= i < k ==> {
                    &&& (#[trigger] out@[i]).0 == errors@[i].0
                    &&& out@[i].1@.len() == errors@[i].1@.len()
                    &&& forall|j: int|
                        0 <= j < errors@[i].1@.len() ==> (#[trigger] out@[i].1@[j])@
                            == problem_message(errors@[i].0@, errors@[i].1@[j].deep_view())
                },
        decreases errors@.len() - k,
    {
        let field = &errors[k].0;
        let msgs = &errors[k].1;
        let mut messages: Vec<String> = Vec::new();
        let mut j: usize = 0;
        while j < msgs.len()
            invariant
                j <= msgs@.len(),
                messages@.len() == j,
                forall|i: int|
                    0 <= i < j ==> (#[trigger] messages@[i])@ == problem_message(
                        field@,
                        msgs@[i].deep_view(),
                    ),
            decreases msgs@.len() - j,
        {
            let m = match &msgs[j] {
                Some(m) => m.clone(),
                None => {
                    let mut s = field.clone();
                    s.append(" is invalid");
                    s
                },
            };
            messages.push(m);
            j += 1;
        }
        out.push((field.clone(), messages));
        k += 1;
    }
    out
}

} // verus!
