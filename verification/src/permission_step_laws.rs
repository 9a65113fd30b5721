//! What is asked of the service about permissions, and what its answers mean.
use crate::config::UniverseConfig;
use crate::error::SyncError;
use crate::permissions::{
    carries_cookie, first_step, grants, grants_all, last_step, numeric_part, planned, reports,
    share, successes_of, unicode_numeric, warning_models, warnings_of, PermissionPlan,
    PermissionReport, PermissionRequest, PermissionStep, PermissionWarning,
};
use crate::text_laws::{law_decimals_stand_for_their_number, number_of};
use vstd::arithmetic::div_mod::{lemma_fundamental_div_mod, lemma_fundamental_div_mod_converse};
use vstd::prelude::*;

verus! {

/// A request lets the very universe use the very sound that it is for: it goes to
/// the sound's address, names the universe by its number, and asks for use and
/// nothing else.
pub proof fn law_requests_say_whom_they_are_for(
    request: PermissionRequest,
    universe_id: u64,
    sound: Seq<char>,
)
    requires
        grants(request, universe_id, sound),
    ensures
        request.method@ == "PATCH"@,
        request.content_type@ == "application/json-patch+json"@,
        request.timeout == 180,
        request.url@ == "https://apis.roblox.com/asset-permissions-api/v1/assets/"@ + numeric_part(
            sound,
        ) + "/permissions"@,
        request.body.requests@.len() == 1,
        request.body.requests@[0].action@ == "Use"@,
        request.body.requests@[0].subject_type@ == "Universe"@,
        number_of(request.body.requests@[0].subject_id@) == universe_id,
{
    law_decimals_stand_for_their_number(universe_id as nat);
}

/// The numeric characters of two texts put together are those of the first and
/// then those of the second: none is moved, added or lost.
pub proof fn law_numeric_parts_follow_each_other(a: Seq<char>, b: Seq<char>)
    ensures
        numeric_part(a + b) == numeric_part(a) + numeric_part(b),
        numeric_part(Seq::<char>::empty()) == Seq::<char>::empty(),
    decreases b.len(),
{
    if b.len() == 0 {
        assert(a + b =~= a);
        assert(numeric_part(a) + numeric_part(b) =~= numeric_part(a));
    } else {
        law_numeric_parts_follow_each_other(a, b.drop_last());
        assert((a + b).drop_last() =~= a + b.drop_last());
        assert((a + b).last() == b.last());
        assert(numeric_part(a + b) =~= numeric_part(a) + numeric_part(b));
    }
}

/// Of a single character all is kept or nothing: a digit is, any other character
/// below 128 is not, and for the rest Unicode decides.
pub proof fn law_single_characters_are_kept_or_not(c: char)
    ensures
        ({
            let kept = numeric_part(seq![c]);
            &&& '0' <= c <= '9' ==> kept == seq![c]
            &&& (c as int) < 128 && !('0' <= c <= '9') ==> kept.len() == 0
            &&& (c as int) >= 128 && unicode_numeric(c) ==> kept == seq![c]
            &&& (c as int) >= 128 && !unicode_numeric(c) ==> kept.len() == 0
        }),
{
    let none = Seq::<char>::empty();
    assert(seq![c].drop_last() =~= none);
    assert(numeric_part(none) =~= none);
    assert(none.push(c) =~= seq![c]);
}

/// The requests go universe by universe, and for each universe sound by sound:
/// the one at position `k` is for the universe and the sound whose turn it is.
pub proof fn law_requests_take_turns(
    requests: Seq<PermissionRequest>,
    universes: Seq<UniverseConfig>,
    sounds: Seq<String>,
    u: int,
    s: int,
)
    requires
        grants_all(requests, universes, sounds),
        0 <= u < universes.len(),
        0 <= s < sounds.len(),
    ensures
        requests.len() == universes.len() * sounds.len(),
        ({
            let k = u * sounds.len() + s;
            &&& 0 <= k < requests.len()
            &&& number_of(requests[k].body.requests@[0].subject_id@) == universes[u].id
            &&& requests[k].url@ == "https://apis.roblox.com/asset-permissions-api/v1/assets/"@
                + numeric_part(sounds[s]@) + "/permissions"@
        }),
{
    let width = sounds.len() as int;
    let k = u * width + s;
    assert(0 <= k < universes.len() * width) by (nonlinear_arith)
        requires
            0 <= u < universes.len(),
            0 <= s < width,
            k == u * width + s,
    ;
    lemma_fundamental_div_mod_converse(k, width, u, s);
    law_requests_say_whom_they_are_for(requests[k], universes[u].id, sounds[s]@);
}

/// Permissions are asked for exactly if there are sounds and universes, and a
/// cookie to ask with. That the cookie is missing is said only where it matters.
pub proof fn law_permissions_are_asked_for_where_wanted(
    has_cookie: bool,
    universes: Seq<UniverseConfig>,
    sounds: Seq<String>,
    plan: PermissionPlan,
)
    requires
        planned(has_cookie, universes, sounds, plan),
    ensures
        plan is NotNeeded <==> sounds.len() == 0 || universes.len() == 0,
        plan is MissingCookie <==> sounds.len() > 0 && universes.len() > 0 && !has_cookie,
        plan is Send <==> sounds.len() > 0 && universes.len() > 0 && has_cookie,
        plan matches PermissionPlan::Send(requests) ==> grants_all(requests@, universes, sounds),
{
}

/// An answer refuses a permission exactly if its status is an error, of the
/// client or of the server. Only a forbidden request that came with a token is
/// sent again, and only once.
pub proof fn law_answers_mean_what_their_status_says(status: u16, has_token: bool)
    ensures
        last_step(status) != PermissionStep::RetryWithToken,
        last_step(status) == PermissionStep::Refused <==> 400 <= status <= 599,
        first_step(status, has_token) == PermissionStep::RetryWithToken <==> status == 403
            && has_token,
        first_step(status, has_token) == PermissionStep::Refused <==> 400 <= status <= 599 && !(
        status == 403 && has_token),
        first_step(status, has_token) == PermissionStep::Accepted <==> !(400 <= status <= 599),
{
}

/// How many of the results are failures.
pub open spec fn refusals_in(results: Seq<Result<(), SyncError>>) -> nat
    decreases results.len(),
{
    if results.len() == 0 {
        0
    } else {
        refusals_in(results.drop_last()) + if results.last() is Err {
            1nat
        } else {
            0
        }
    }
}

/// Each result that is no failure counts as a success.
pub proof fn law_successes_are_counted(results: Seq<Result<(), SyncError>>)
    ensures
        successes_of(results) + refusals_in(results) == results.len(),
    decreases results.len(),
{
    if results.len() > 0 {
        law_successes_are_counted(results.drop_last());
    }
}

/// Each failed result among the first `n` has its warning, in the order of the
/// results: it says which result it is for, and names the universe whose share
/// that result falls into and the sound whose turn it is there.
pub proof fn law_failures_have_their_warnings(
    universes: Seq<UniverseConfig>,
    sounds: Seq<String>,
    results: Seq<Result<(), SyncError>>,
    width: int,
    n: int,
    k: int,
)
    requires
        0 <= k < n <= results.len(),
        0 < width,
        0 < sounds.len(),
        results[k] is Err,
    ensures
        ({
            let warnings = warnings_of(universes, sounds, results, width, n);
            let at = refusals_in(results.take(k)) as int;
            &&& warnings.len() == refusals_in(results.take(n))
            &&& 0 <= at < warnings.len()
            &&& warnings[at].position == k
            &&& warnings[at].universe_id == universes[k / width].id
            &&& warnings[at].sound == sounds[(k % width) % sounds.len() as int]@
        }),
    decreases n,
{
    lemma_warning_count(universes, sounds, results, width, n);
    lemma_warning_count(universes, sounds, results, width, n - 1);
    assert(results.take(n).drop_last() =~= results.take(n - 1));
    if k < n - 1 {
        law_failures_have_their_warnings(universes, sounds, results, width, n - 1, k);
    }
}

proof fn lemma_warning_count(
    universes: Seq<UniverseConfig>,
    sounds: Seq<String>,
    results: Seq<Result<(), SyncError>>,
    width: int,
    n: int,
)
    requires
        0 <= n <= results.len(),
    ensures
        warnings_of(universes, sounds, results, width, n).len() == refusals_in(results.take(n)),
    decreases n,
{
    if n > 0 {
        lemma_warning_count(universes, sounds, results, width, n - 1);
        assert(results.take(n).drop_last() =~= results.take(n - 1));
    } else {
        assert(results.take(0).len() == 0);
    }
}

/// The results are shared out among the universes as evenly as can be: each but
/// the last gets the same, the smallest number that leaves none over.
pub proof fn law_shares_are_as_even_as_can_be(results: int, universes: int)
    requires
        0 < results,
        0 < universes,
    ensures
        share(results, universes) * universes >= results,
        (share(results, universes) - 1) * universes < results,
{
    let n = results + universes - 1;
    let q = n / universes;
    lemma_fundamental_div_mod(n, universes);
    assert(q * universes >= results && (q - 1) * universes < results) by (nonlinear_arith)
        requires
            n == universes * q + n % universes,
            0 <= n % universes < universes,
            n == results + universes - 1,
    ;
}

/// A report counts each result that is no failure, and has a warning for each
/// that is one, which says which result it is for and names the universe and the
/// sound.
pub proof fn law_reports_leave_no_result_out(
    report: PermissionReport,
    universes: Seq<UniverseConfig>,
    sounds: Seq<String>,
    results: Seq<Result<(), SyncError>>,
    k: int,
)
    requires
        reports(report, universes, sounds, results),
        0 < universes.len(),
        0 < sounds.len(),
        0 <= k < results.len(),
    ensures
        report.successes + report.warnings@.len() == results.len(),
        results[k] is Err ==> {
            let width = share(results.len() as int, universes.len() as int);
            let at = refusals_in(results.take(k)) as int;
            &&& 0 <= at < report.warnings@.len()
            &&& report.warnings@[at].position == k
            &&& report.warnings@[at].universe_id == universes[k / width].id
            &&& report.warnings@[at].sound@ == sounds[(k % width) % sounds.len() as int]@
        },
{
    let n = results.len() as int;
    let width = share(n, universes.len() as int);
    law_shares_are_as_even_as_can_be(n, universes.len() as int);
    assert(0 < width) by (nonlinear_arith)
        requires
            width * universes.len() >= n,
            0 < n,
            0 < universes.len(),
    ;
    law_successes_are_counted(results);
    lemma_warning_count(universes, sounds, results, width, n);
    assert(results.take(n) =~= results);
    assert(warning_models(report.warnings@).len() == report.warnings@.len());
    if results[k] is Err {
        let at = refusals_in(results.take(k)) as int;
        law_failures_have_their_warnings(universes, sounds, results, width, n, k);
        law_reports_show_their_warnings(report.warnings@, at);
    }
}

/// The header with the login cookie holds the cookie as it is, behind its name.
pub proof fn law_cookies_are_carried_as_they_are(value: Seq<char>, cookie: Seq<char>)
    requires
        carries_cookie(value, cookie),
    ensures
        value.len() == 15 + cookie.len(),
        value.take(15) == ".ROBLOSECURITY="@,
        value.skip(15) == cookie,
{
    reveal_strlit(".ROBLOSECURITY=");
    assert(value.take(15) =~= ".ROBLOSECURITY="@);
    assert(value.skip(15) =~= cookie);
}

/// A report's warnings are told one by one.
pub proof fn law_reports_show_their_warnings(warnings: Seq<PermissionWarning>, i: int)
    requires
        0 <= i < warnings.len(),
    ensures
        warning_models(warnings).len() == warnings.len(),
        warning_models(warnings)[i].universe_id == warnings[i].universe_id,
        warning_models(warnings)[i].sound == warnings[i].sound@,
        warning_models(warnings)[i].position == warnings[i].position,
{
}

/// A warning is told by its universe, its sound and its position.
pub proof fn law_warnings_show_what_they_are(warning: PermissionWarning)
    ensures
        warning@.universe_id == warning.universe_id,
        warning@.sound == warning.sound@,
        warning@.position == warning.position,
{
}

} // verus!
