//! The collector of disk temperatures: the reply of the `hddtemp` service,
//! rendered as a fragment.

use vstd::prelude::*;
use vstd::string::*;
use crate::pattern::{
    captures, group_value, groups_view, regex_captures, regex_compiles, value_from_groups,
    MatchError,
};
use crate::text::{is_block, metric_line, push_line};

verus! {

/// The pattern of a reply; its four groups are the temperatures of the four
/// disks, in the order in which the service lists them.
pub open spec fn hddtemp_pattern() -> Seq<char> {
    r"\|CT1000MX500SSD4\|([0-9.]+)\|C\|.+\|Samsung SSD 860 EVO M.2\|([0-9.]+)\|C\|.+\|WDC WD20EFZX-68AWUN0\|([0-9.]+)\|C\|.+\|WDC WD20EFZX-68AWUN0\|([0-9.]+)\|C\|.*$"@
}

/// The fragment of the four temperatures that the groups of a reply hold.
/// Each of groups 1 to 4 must be there and be a decimal value; the first
/// that is not decides the error.
pub open spec fn hddtemp_lines(groups: Seq<Option<Seq<char>>>) -> Result<Seq<char>, MatchError> {
    match group_value(groups, 1) {
        Err(e) => Err(e),
        Ok(first) => match group_value(groups, 2) {
            Err(e) => Err(e),
            Ok(second) => match group_value(groups, 3) {
                Err(e) => Err(e),
                Ok(third) => match group_value(groups, 4) {
                    Err(e) => Err(e),
                    Ok(fourth) => Ok(
                        metric_line("hddtemp_crucial_mx500_temp"@, first) + metric_line(
                            "hddtemp_samsung_860_evo_temp"@,
                            second,
                        ) + metric_line("hddtemp_wd_red_plus_1_temp"@, third) + metric_line(
                            "hddtemp_wd_red_plus_2_temp"@,
                            fourth,
                        ),
                    ),
                },
            },
        },
    }
}

/// Renders the groups of a reply.
pub fn fragment_from_groups(groups: &Vec<Option<String>>) -> (out: Result<String, MatchError>)
    ensures
        match out {
            Ok(text) => hddtemp_lines(groups_view(groups@)) == Ok::<Seq<char>, MatchError>(text@)
                && is_block(text@),
            Err(e) => hddtemp_lines(groups_view(groups@)) == Err::<Seq<char>, MatchError>(e),
        },
{
    let first = match value_from_groups(groups, 1) {
        Ok(text) => text,
        Err(e) => return Err(e),
    };
    let second = match value_from_groups(groups, 2) {
        Ok(text) => text,
        Err(e) => return Err(e),
    };
    let third = match value_from_groups(groups, 3) {
        Ok(text) => text,
        Err(e) => return Err(e),
    };
    let fourth = match value_from_groups(groups, 4) {
        Ok(text) => text,
        Err(e) => return Err(e),
    };
    let mut out = String::new();
    push_line(&mut out, "hddtemp_crucial_mx500_temp", first.as_str());
    push_line(&mut out, "hddtemp_samsung_860_evo_temp", second.as_str());
    push_line(&mut out, "hddtemp_wd_red_plus_1_temp", third.as_str());
    push_line(&mut out, "hddtemp_wd_red_plus_2_temp", fourth.as_str());
    assert(out@ =~= hddtemp_lines(groups_view(groups@))->Ok_0);
    Ok(out)
}

/// What a reply of the service gives: its fragment where it matches the
/// pattern with four decimal values, else the reason why it gives none.
pub open spec fn hddtemp_outcome(reply: Seq<char>) -> Result<Seq<char>, MatchError> {
    if !regex_compiles(hddtemp_pattern()) {
        Err(MatchError::BadPattern)
    } else {
        match regex_captures(hddtemp_pattern(), reply) {
            None => Err(MatchError::NoMatch),
            Some(groups) => hddtemp_lines(groups),
        }
    }
}

/// Renders a reply of the service as a fragment.
pub fn get_hddtemp_metrics(reply: &str) -> (out: Result<String, MatchError>)
    ensures
        match out {
            Ok(text) => hddtemp_outcome(reply@) == Ok::<Seq<char>, MatchError>(text@) && is_block(
                text@,
            ),
            Err(e) => hddtemp_outcome(reply@) == Err::<Seq<char>, MatchError>(e),
        },
{
    let found = match captures(
        r"\|CT1000MX500SSD4\|([0-9.]+)\|C\|.+\|Samsung SSD 860 EVO M.2\|([0-9.]+)\|C\|.+\|WDC WD20EFZX-68AWUN0\|([0-9.]+)\|C\|.+\|WDC WD20EFZX-68AWUN0\|([0-9.]+)\|C\|.*$",
        reply,
    ) {
        Ok(found) => found,
        Err(_) => return Err(MatchError::BadPattern),
    };
    match found {
        None => Err(MatchError::NoMatch),
        Some(groups) => fragment_from_groups(&groups),
    }
}

} // verus!
