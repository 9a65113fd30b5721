//! Permissions for uploaded sounds: which universes may use which of them.
use crate::config::UniverseConfig;
use crate::error::SyncError;
use crate::roblox::RobloxSyncStrategy;
use crate::text::{decimal, decimal_text, joined, to_chars};
use vstd::arithmetic::div_mod::{lemma_fundamental_div_mod, lemma_fundamental_div_mod_converse};
use vstd::prelude::*;

verus! {

/// Whether a character is numeric in the sense of the Unicode standard.
pub uninterp spec fn unicode_numeric(c: char) -> bool;

/// `char::is_numeric` tells whether a character belongs to one of Unicode's
/// categories for numbers.
pub assume_specification[ char::is_numeric ](c: char) -> (r: bool)
    ensures
        r == unicode_numeric(c),
;

/// Whether a character is numeric. Below 128 these are the ten digits.
pub open spec fn numeric(c: char) -> bool {
    if (c as int) < 128 {
        '0' <= c <= '9'
    } else {
        unicode_numeric(c)
    }
}

/// The numeric characters of a text, in order.
pub open spec fn numeric_part(s: Seq<char>) -> Seq<char>
    decreases s.len(),
{
    if s.len() == 0 {
        s
    } else if numeric(s.last()) {
        numeric_part(s.drop_last()).push(s.last())
    } else {
        numeric_part(s.drop_last())
    }
}

/// Keeps the numeric characters of a text.
pub fn keep_numeric(s: &str) -> (r: String)
    ensures
        r@ == numeric_part(s@),
{
    let chars = to_chars(s);
    let wide = '\u{80}';
    let mut r = String::new();
    let mut i: usize = 0;
    assert(s@.take(0) =~= Seq::<char>::empty());
    while i < chars.len()
        invariant
            chars@ == s@,
            wide as int == 128,
            i <= chars.len(),
            r@ == numeric_part(s@.take(i as int)),
        decreases chars.len() - i,
    {
        let c = chars[i];
        let keep = if c < wide {
            '0' <= c && c <= '9'
        } else {
            c.is_numeric()
        };
        assert(s@.take(i + 1).drop_last() =~= s@.take(i as int));
        if keep {
            r.push(c);
        }
        i = i + 1;
    }
    assert(s@.take(i as int) =~= s@);
    r
}

/// One permission, as the service takes it.
pub struct AudioPermissionsRequestEntry {
    pub action: String,
    pub subject_type: String,
    pub subject_id: String,
}

/// The permissions asked for in one request.
pub struct AudioPermissionsRequest {
    pub requests: Vec<AudioPermissionsRequestEntry>,
}

/// How many seconds a permission request may take.
pub const PERMISSION_TIMEOUT: u64 = 180;

/// A request to let one universe use one sound. The login cookie goes with it
/// as a header of its own.
pub struct PermissionRequest {
    pub method: String,
    pub url: String,
    pub content_type: String,
    /// How many seconds the request may take.
    pub timeout: u64,
    pub body: AudioPermissionsRequest,
}

/// Whether `request` asks to let the universe `universe_id` use the sound that
/// stands under `sound`. The sound may be given by its bare id or with a
/// scheme in front.
pub open spec fn grants(request: PermissionRequest, universe_id: u64, sound: Seq<char>) -> bool {
    &&& request.method@ == "PATCH"@
    &&& request.content_type@ == "application/json-patch+json"@
    &&& request.timeout == PERMISSION_TIMEOUT
    &&& request.url@ == "https://apis.roblox.com/asset-permissions-api/v1/assets/"@ + numeric_part(
        sound,
    ) + "/permissions"@
    &&& request.body.requests@.len() == 1
    &&& request.body.requests@[0].action@ == "Use"@
    &&& request.body.requests@[0].subject_type@ == "Universe"@
    &&& request.body.requests@[0].subject_id@ == decimal_text(universe_id as nat)
}

/// The request that lets a universe use a sound.
pub fn permission_request(universe_id: u64, sound: &str) -> (r: PermissionRequest)
    ensures
        grants(r, universe_id, sound@),
{
    let asset_id = keep_numeric(sound);
    let front = joined(
        "https://apis.roblox.com/asset-permissions-api/v1/assets/",
        asset_id.as_str(),
    );
    let url = joined(front.as_str(), "/permissions");
    let mut requests: Vec<AudioPermissionsRequestEntry> = Vec::new();
    requests.push(
        AudioPermissionsRequestEntry {
            action: "Use".to_owned(),
            subject_type: "Universe".to_owned(),
            subject_id: decimal(universe_id),
        },
    );
    PermissionRequest {
        method: "PATCH".to_owned(),
        url,
        content_type: "application/json-patch+json".to_owned(),
        timeout: PERMISSION_TIMEOUT,
        body: AudioPermissionsRequest { requests },
    }
}

/// Whether a header's value carries the login cookie `cookie`.
pub open spec fn carries_cookie(value: Seq<char>, cookie: Seq<char>) -> bool {
    value == ".ROBLOSECURITY="@ + cookie
}

/// The value of the header that carries the login cookie `cookie`.
pub fn cookie_header(cookie: &str) -> (r: String)
    ensures
        carries_cookie(r@, cookie@),
        r@ == ".ROBLOSECURITY="@ + cookie@,
{
    joined(".ROBLOSECURITY=", cookie)
}

/// Whether the requests let every universe use every sound: those for the
/// first universe come first, and for each universe the sounds go in order.
pub open spec fn grants_all(
    requests: Seq<PermissionRequest>,
    universes: Seq<UniverseConfig>,
    sounds: Seq<String>,
) -> bool {
    &&& requests.len() == universes.len() * sounds.len()
    &&& forall|k: int|
        0 <= k < requests.len() ==> grants(
            #[trigger] requests[k],
            universes[k / sounds.len() as int].id,
            sounds[k % sounds.len() as int]@,
        )
}

/// The requests that let every universe use every sound.
pub fn permission_requests(universes: &Vec<UniverseConfig>, sounds: &Vec<String>) -> (r: Vec<
    PermissionRequest,
>)
    ensures
        grants_all(r@, universes@, sounds@),
{
    let mut r: Vec<PermissionRequest> = Vec::new();
    let mut u: usize = 0;
    let ghost width = sounds@.len() as int;
    assert(0 * width == 0);
    while u < universes.len()
        invariant
            width == sounds@.len(),
            u <= universes.len(),
            r@.len() == u * width,
            forall|k: int|
                0 <= k < r@.len() ==> grants(
                    #[trigger] r@[k],
                    universes@[k / width].id,
                    sounds@[k % width]@,
                ),
        decreases universes.len() - u,
    {
        let mut a: usize = 0;
        while a < sounds.len()
            invariant
                width == sounds@.len(),
                u < universes.len(),
                a <= sounds.len(),
                r@.len() == u * width + a,
                forall|k: int|
                    0 <= k < r@.len() ==> grants(
                        #[trigger] r@[k],
                        universes@[k / width].id,
                        sounds@[k % width]@,
                    ),
            decreases sounds.len() - a,
        {
            let request = permission_request(universes[u].id, sounds[a].as_str());
            proof {
                lemma_fundamental_div_mod_converse(u * width + a, width, u as int, a as int);
            }
            r.push(request);
            a = a + 1;
        }
        assert((u + 1) * width == u * width + width) by (nonlinear_arith);
        u = u + 1;
    }
    r
}

/// What is to be done about permissions.
pub enum PermissionPlan {
    /// There are no sounds, or no universes that would use them.
    NotNeeded,
    /// Permissions are wanted, but there is no cookie to ask for them with.
    MissingCookie,
    /// The requests to be sent.
    Send(Vec<PermissionRequest>),
}

/// Whether `plan` is what is to be done about permissions, given whether there is
/// a cookie.
pub open spec fn planned(
    has_cookie: bool,
    universes: Seq<UniverseConfig>,
    sounds: Seq<String>,
    plan: PermissionPlan,
) -> bool {
    match plan {
        PermissionPlan::NotNeeded => sounds.len() == 0 || universes.len() == 0,
        PermissionPlan::MissingCookie => sounds.len() > 0 && universes.len() > 0 && !has_cookie,
        PermissionPlan::Send(requests) => sounds.len() > 0 && universes.len() > 0 && has_cookie
            && grants_all(requests@, universes, sounds),
    }
}

impl<S> RobloxSyncStrategy<S> {
    /// Plans the permissions that let the universes use the sounds.
    pub fn plan_permissions(&self, universes: &Vec<UniverseConfig>, sounds: &Vec<String>) -> (r:
        PermissionPlan)
        ensures
            planned(self.cookie is Some, universes@, sounds@, r),
            if sounds@.len() == 0 || universes@.len() == 0 {
                r is NotNeeded
            } else if self.cookie is None {
                r is MissingCookie
            } else {
                r matches PermissionPlan::Send(requests) && grants_all(
                    requests@,
                    universes@,
                    sounds@,
                )
            },
    {
        if sounds.is_empty() || universes.is_empty() {
            PermissionPlan::NotNeeded
        } else {
            match &self.cookie {
                Some(_) => PermissionPlan::Send(permission_requests(universes, sounds)),
                None => PermissionPlan::MissingCookie,
            }
        }
    }
}

/// The name of the header in which the service sends a token, and takes it back.
pub fn csrf_header() -> (r: String)
    ensures
        r@ == "X-CSRF-Token"@,
{
    "X-CSRF-Token".to_owned()
}

/// What the answer to a permission request calls for.
#[derive(Clone, Copy, Debug, PartialEq, Eq, Structural)]
pub enum PermissionStep {
    /// The same request again, with the token that the answer brought.
    RetryWithToken,
    /// The permission was granted.
    Accepted,
    /// The permission was not granted.
    Refused,
}

/// Whether a status stands for an error of the client or of the server.
pub open spec fn error_status(status: u16) -> bool {
    400 <= status < 600
}

/// What the last answer to a permission request comes to.
pub open spec fn last_step(status: u16) -> PermissionStep {
    if error_status(status) {
        PermissionStep::Refused
    } else {
        PermissionStep::Accepted
    }
}

/// What the first answer to a permission request comes to.
pub open spec fn first_step(status: u16, has_csrf_token: bool) -> PermissionStep {
    if status == 403 && has_csrf_token {
        PermissionStep::RetryWithToken
    } else {
        last_step(status)
    }
}

/// What the last answer to a permission request calls for.
pub fn after_last_answer(status: u16) -> (r: PermissionStep)
    ensures
        r == last_step(status),
        r == if error_status(status) {
            PermissionStep::Refused
        } else {
            PermissionStep::Accepted
        },
{
    if 400 <= status && status < 600 {
        PermissionStep::Refused
    } else {
        PermissionStep::Accepted
    }
}

/// What the first answer to a permission request calls for. An answer that
/// forbids the request but brings a token is a challenge, to be answered with
/// that token.
pub fn after_first_answer(status: u16, has_csrf_token: bool) -> (r: PermissionStep)
    ensures
        r == first_step(status, has_csrf_token),
        r == if status == 403 && has_csrf_token {
            PermissionStep::RetryWithToken
        } else if error_status(status) {
            PermissionStep::Refused
        } else {
            PermissionStep::Accepted
        },
{
    if status == 403 && has_csrf_token {
        PermissionStep::RetryWithToken
    } else {
        after_last_answer(status)
    }
}

/// A permission that was not granted.
pub struct PermissionWarning {
    pub universe_id: u64,
    pub sound: String,
    /// The position of the request among those that were sent.
    pub position: usize,
}

/// A permission that was not granted, as a value.
pub struct WarningModel {
    pub universe_id: u64,
    pub sound: Seq<char>,
    pub position: int,
}

impl View for PermissionWarning {
    type V = WarningModel;

    open spec fn view(&self) -> WarningModel {
        WarningModel {
            universe_id: self.universe_id,
            sound: self.sound@,
            position: self.position as int,
        }
    }
}

/// What became of the permission requests.
pub struct PermissionReport {
    pub successes: usize,
    pub warnings: Vec<PermissionWarning>,
}

/// How many results fall to each universe when `results` of them are shared
/// out evenly, the last universe getting what is left.
pub open spec fn share(results: int, universes: int) -> int {
    (results + universes - 1) / universes
}

/// How many of the results are successes.
pub open spec fn successes_of(results: Seq<Result<(), SyncError>>) -> nat
    decreases results.len(),
{
    if results.len() == 0 {
        0
    } else if results.last() is Ok {
        successes_of(results.drop_last()) + 1
    } else {
        successes_of(results.drop_last())
    }
}

/// The warnings for the first `n` results, with `width` results for each
/// universe.
pub open spec fn warnings_of(
    universes: Seq<UniverseConfig>,
    sounds: Seq<String>,
    results: Seq<Result<(), SyncError>>,
    width: int,
    n: int,
) -> Seq<WarningModel>
    decreases n,
{
    if n <= 0 {
        Seq::empty()
    } else {
        let k = n - 1;
        let before = warnings_of(universes, sounds, results, width, k);
        if results[k] is Err {
            before.push(
                WarningModel {
                    universe_id: universes[k / width].id,
                    sound: sounds[(k % width) % sounds.len() as int]@,
                    position: k,
                },
            )
        } else {
            before
        }
    }
}

/// Some warnings, as values.
pub open spec fn warning_models(warnings: Seq<PermissionWarning>) -> Seq<WarningModel> {
    warnings.map_values(|w: PermissionWarning| w@)
}

/// Whether a report says what became of the permission requests.
pub open spec fn reports(
    report: PermissionReport,
    universes: Seq<UniverseConfig>,
    sounds: Seq<String>,
    results: Seq<Result<(), SyncError>>,
) -> bool {
    &&& report.successes == successes_of(results)
    &&& warning_models(report.warnings@) == warnings_of(
        universes,
        sounds,
        results,
        share(results.len() as int, universes.len() as int),
        results.len() as int,
    )
}

/// Sums up what became of the permission requests: how many were granted, and
/// which universe is left without which sound.
pub fn permission_report(
    universes: &Vec<UniverseConfig>,
    sounds: &Vec<String>,
    results: &Vec<Result<(), SyncError>>,
) -> (r: PermissionReport)
    requires
        universes@.len() > 0,
        sounds@.len() > 0,
        results@.len() > 0,
    ensures
        reports(r, universes@, sounds@, results@),
        r.successes == successes_of(results@),
        warning_models(r.warnings@) == warnings_of(
            universes@,
            sounds@,
            results@,
            share(results@.len() as int, universes@.len() as int),
            results@.len() as int,
        ),
{
    let total: usize = results.len();
    let parts: usize = universes.len();
    proof {
        lemma_share(total as int, parts as int);
    }
    let width: usize = if total % parts == 0 {
        total / parts
    } else {
        total / parts + 1
    };
    let mut successes: usize = 0;
    let mut warnings: Vec<PermissionWarning> = Vec::new();
    let mut k: usize = 0;
    assert(warning_models(warnings@) =~= Seq::<WarningModel>::empty());
    assert(results@.take(0) =~= Seq::<Result<(), SyncError>>::empty());
    while k < total
        invariant
            total == results@.len(),
            parts == universes@.len(),
            sounds@.len() > 0,
            width == share(total as int, parts as int),
            0 < width,
            total <= width * parts,
            k <= total,
            successes <= k,
            successes == successes_of(results@.take(k as int)),
            warning_models(warnings@) == warnings_of(
                universes@,
                sounds@,
                results@,
                width as int,
                k as int,
            ),
        decreases total - k,
    {
        let ghost before = warnings@;
        assert(results@.take(k + 1).drop_last() =~= results@.take(k as int));
        assert(k / width < parts) by (nonlinear_arith)
            requires
                k < total,
                total <= width * parts,
                0 < width,
        ;
        let sound: usize = (k % width) % sounds.len();
        match &results[k] {
            Ok(_) => {
                successes = successes + 1;
            },
            Err(_) => {
                warnings.push(
                    PermissionWarning {
                        universe_id: universes[k / width].id,
                        sound: sounds[sound].clone(),
                        position: k,
                    },
                );
                assert(warning_models(warnings@) =~= warning_models(before).push(
                    warnings@.last()@,
                ));
            },
        }
        k = k + 1;
    }
    assert(results@.take(k as int) =~= results@);
    PermissionReport { successes, warnings }
}

/// An even share, with what is left over rounded up, covers everything.
proof fn lemma_share(total: int, parts: int)
    requires
        0 < total,
        0 < parts,
    ensures
        share(total, parts) == if total % parts == 0 {
            total / parts
        } else {
            total / parts + 1
        },
        0 < share(total, parts) <= total,
        total <= share(total, parts) * parts,
{
    let q = total / parts;
    let r = total % parts;
    lemma_fundamental_div_mod(total, parts);
    assert(total == parts * q + r);
    assert(q >= 0 && q <= total) by (nonlinear_arith)
        requires
            total == parts * q + r,
            0 <= r < parts,
            0 < total,
            0 < parts,
    ;
    if r == 0 {
        assert(total + parts - 1 == q * parts + (parts - 1)) by (nonlinear_arith)
            requires
                total == parts * q + r,
                r == 0,
        ;
        lemma_fundamental_div_mod_converse(total + parts - 1, parts, q, parts - 1);
        assert(q > 0) by (nonlinear_arith)
            requires
                total == parts * q,
                0 < total,
                q >= 0,
        ;
        assert(total <= q * parts) by (nonlinear_arith)
            requires
                total == parts * q,
        ;
    } else {
        assert(total + parts - 1 == (q + 1) * parts + (r - 1)) by (nonlinear_arith)
            requires
                total == parts * q + r,
        ;
        lemma_fundamental_div_mod_converse(total + parts - 1, parts, q + 1, r - 1);
        assert(q + 1 <= total) by (nonlinear_arith)
            requires
                total == parts * q + r,
                0 < r,
                0 < parts,
                q >= 0,
        ;
        assert(total <= (q + 1) * parts) by (nonlinear_arith)
            requires
                total == parts * q + r,
                r < parts,
        ;
    }
}

} // verus!
