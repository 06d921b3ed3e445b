use vstd::prelude::*;

use crate::text::dec_digit;
use crate::text::dec_str;
use crate::text::u64_to_dec_string;

verus! {

/// A percentage in hundredths, rendered with two decimals and a percent
/// sign; a dash when it is undefined.
pub open spec fn percentage_text(p: Option<u64>) -> Seq<char> {
    match p {
        Option::None => seq!['-'],
        Option::Some(bp) => dec_str((bp / 100) as nat) + seq!['.'] + seq![
            dec_digit(((bp % 100) / 10) as nat),
            dec_digit((bp % 10) as nat),
        ] + seq!['%'],
    }
}

/// Renders a percentage held in hundredths, with two decimals, or a dash for
/// an undefined one.
pub fn render_optional_percentage(percentage: Option<u64>) -> (r: String)
    ensures
        r@ == percentage_text(percentage),
{
    match percentage {
        None => {
            proof {
                reveal_strlit("-");
            }
            let r = String::from_str("-");
            proof {
                assert(r@ =~= percentage_text(None));
            }
            r
        },
        Some(bp) => {
            let mut r = u64_to_dec_string(bp / 100);
            r.append(".");
            r.append(crate::text::digit_to_str((bp % 100) / 10));
            r.append(crate::text::digit_to_str(bp % 10));
            r.append("%");
            proof {
                reveal_strlit(".");
                reveal_strlit("%");
                assert(r@ =~= percentage_text(Some(bp)));
            }
            r
        },
    }
}

/// The styling class for a percentage held in hundredths: the prefix with the
/// nearest ten appended, or with `none` when the percentage is undefined.
pub open spec fn percentage_class(prefix: Seq<char>, p: Option<u64>) -> Seq<char> {
    match p {
        Option::None => prefix + seq!['-'] + "none"@,
        Option::Some(bp) => prefix + seq!['-'] + dec_str((((bp as int + 500) / 1000)) as nat),
    }
}

/// The styling class for a percentage: `<prefix>-<nearest ten>`, or
/// `<prefix>-none` for an undefined one.
pub fn get_percentage_class(prefix: &str, percentage: &Option<u64>) -> (r: String)
    ensures
        r@ == percentage_class(prefix@, *percentage),
{
    let mut r = String::from_str(prefix);
    r.append("-");
    proof {
        reveal_strlit("-");
    }
    match percentage {
        None => {
            r.append("none");
            proof {
                reveal_strlit("none");
                assert(r@ =~= percentage_class(prefix@, *percentage));
            }
            r
        },
        Some(bp) => {
            let ten = *bp / 1000 + if *bp % 1000 >= 500 {
                1
            } else {
                0
            };
            proof {
                assert(ten == ((*bp as int + 500) / 1000));
            }
            let s = u64_to_dec_string(ten);
            r.append(s.as_str());
            proof {
                assert(r@ =~= percentage_class(prefix@, *percentage));
            }
            r
        },
    }
}

} // verus!
