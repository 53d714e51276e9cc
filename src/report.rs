use crate::age::age_between;
use crate::text::{decimal_string, decimal_text, trim_of, trim_text};
use vstd::prelude::*;

verus! {

/// The lines of the results block: the name as typed without surrounding
/// white space, the birth year, the current year, and the age between them.
pub open spec fn results_text(name: Seq<char>, birth_year: int, current_year: int) -> Seq<
    Seq<char>,
> {
    seq![
        "Nome (String)   : "@ + trim_of(name),
        "Ano nascimento  : "@ + decimal_text(birth_year),
        "Ano atual       : "@ + decimal_text(current_year),
        "Idade aproximada: "@ + decimal_text(current_year - birth_year) + " anos"@,
    ]
}

fn labelled(label: &str, value: &str) -> (r: String)
    ensures
        r@ == label@ + value@,
{
    let mut s = String::from_str(label);
    s.append(value);
    s
}

/// Lays out the results block for `name`, born in `birth_year`, as of
/// `current_year`. The age is always `current_year - birth_year`, negative or
/// zero included.
pub fn results_block(name: &str, birth_year: i32, current_year: i32) -> (r: Vec<String>)
    ensures
        r@.len() == 4,
        forall|k: int|
            0 <= k < 4 ==> #[trigger] r@[k]@ == results_text(name@, birth_year as int, current_year as int)[k],
{
    let age = age_between(current_year, birth_year);
    let mut r: Vec<String> = Vec::new();
    r.push(labelled("Nome (String)   : ", trim_text(name)));
    let birth = decimal_string(birth_year as i64);
    r.push(labelled("Ano nascimento  : ", birth.as_str()));
    let current = decimal_string(current_year as i64);
    r.push(labelled("Ano atual       : ", current.as_str()));
    let years = decimal_string(age);
    let mut last = labelled("Idade aproximada: ", years.as_str());
    last.append(" anos");
    r.push(last);
    r
}

} // verus!
