//! What holds of the permissions that a sync asks for.
use crate::config::UniverseConfig;
use crate::error::SyncError;
use crate::permissions::{
    grants, grants_all, numeric, numeric_part, share, successes_of, warnings_of, PermissionRequest,
};
use vstd::arithmetic::div_mod::lemma_fundamental_div_mod_converse;
use vstd::prelude::*;

verus! {

/// Whether a text is made of decimal digits.
pub open spec fn all_digits(s: Seq<char>) -> bool {
    forall|i: int| 0 <= i < s.len() ==> '0' <= #[trigger] s[i] <= '9'
}

proof fn lemma_digits_are_kept(front: Seq<char>, id: Seq<char>)
    requires
        all_digits(id),
    ensures
        numeric_part(front + id) == numeric_part(front) + id,
    decreases id.len(),
{
    if id.len() == 0 {
        assert(front + id =~= front);
        assert(numeric_part(front) + id =~= numeric_part(front));
    } else {
        let rest = id.drop_last();
        assert forall|i: int| 0 <= i < rest.len() implies '0' <= #[trigger] rest[i] <= '9' by {
            assert(rest[i] == id[i]);
        }
        lemma_digits_are_kept(front, rest);
        assert((front + id).drop_last() =~= front + rest);
        assert('0' <= id[id.len() - 1] <= '9');
        assert(numeric((front + id).last()));
        assert(numeric_part(front + id) =~= numeric_part(front) + id);
    }
}

proof fn lemma_nothing_kept(s: Seq<char>)
    requires
        forall|i: int| 0 <= i < s.len() ==> !numeric(#[trigger] s[i]),
    ensures
        numeric_part(s) == Seq::<char>::empty(),
    decreases s.len(),
{
    if s.len() == 0 {
        assert(s =~= Seq::<char>::empty());
    } else {
        let rest = s.drop_last();
        assert forall|i: int| 0 <= i < rest.len() implies !numeric(#[trigger] rest[i]) by {
            assert(rest[i] == s[i]);
        }
        assert(!numeric(s[s.len() - 1]));
        lemma_nothing_kept(rest);
    }
}

/// The id of a sound is found again in the form that it has at the target, and
/// stays as it is where it comes bare.
pub proof fn law_asset_ids_are_recovered(id: Seq<char>)
    requires
        all_digits(id),
    ensures
        numeric_part("rbxassetid://"@ + id) == id,
        numeric_part(id) == id,
{
    let none = Seq::<char>::empty();
    lemma_digits_are_kept("rbxassetid://"@, id);
    lemma_digits_are_kept(none, id);
    assert(none + id =~= id);
    reveal_strlit("rbxassetid://");
    lemma_nothing_kept("rbxassetid://"@);
    lemma_nothing_kept(none);
    assert(none + id =~= id);
}

/// Every universe is let use every sound.
pub proof fn law_every_universe_gets_every_sound(
    requests: Seq<PermissionRequest>,
    universes: Seq<UniverseConfig>,
    sounds: Seq<String>,
    u: int,
    s: int,
)
    requires
        grants_all(requests, universes, sounds),
        0 <= u < universes.len(),
        0 <= s < sounds.len(),
    ensures
        exists|k: int|
            0 <= k < requests.len() && grants(#[trigger] requests[k], universes[u].id, sounds[s]@),
{
    let width = sounds.len() as int;
    let k = u * width + s;
    assert(0 <= k < universes.len() * width) by (nonlinear_arith)
        requires
            0 <= u < universes.len(),
            0 <= s < width,
            k == u * width + s,
    ;
    lemma_fundamental_div_mod_converse(k, width, u, s);
    assert(grants(requests[k], universes[u].id, sounds[s]@));
}

/// With a result for each request, every universe has as many results as there
/// are sounds.
proof fn lemma_even_share(universes: int, sounds: int)
    requires
        0 < universes,
        0 < sounds,
    ensures
        share(universes * sounds, universes) == sounds,
{
    assert(universes * sounds + universes - 1 == sounds * universes + (universes - 1))
        by (nonlinear_arith);
    lemma_fundamental_div_mod_converse(
        universes * sounds + universes - 1,
        universes,
        sounds,
        universes - 1,
    );
}

/// The report names the right universe and the right sound: a warning stands
/// for a request that failed, and says what that request asked for. Each
/// result is either a success or has a warning.
pub proof fn law_warnings_name_their_requests(
    requests: Seq<PermissionRequest>,
    universes: Seq<UniverseConfig>,
    sounds: Seq<String>,
    results: Seq<Result<(), SyncError>>,
)
    requires
        grants_all(requests, universes, sounds),
        results.len() == requests.len(),
        results.len() > 0,
    ensures
        ({
            let width = share(results.len() as int, universes.len() as int);
            let warnings = warnings_of(universes, sounds, results, width, results.len() as int);
            &&& successes_of(results) + warnings.len() == results.len()
            &&& forall|w: int|
                0 <= w < warnings.len() ==> {
                    let warning = #[trigger] warnings[w];
                    &&& 0 <= warning.position < results.len()
                    &&& results[warning.position] is Err
                    &&& grants(requests[warning.position], warning.universe_id, warning.sound)
                }
        }),
{
    let width = sounds.len() as int;
    assert(0 < universes.len() && 0 < width) by (nonlinear_arith)
        requires
            universes.len() * width > 0,
            width >= 0,
    ;
    lemma_even_share(universes.len() as int, width);
    lemma_warnings(requests, universes, sounds, results, results.len() as int);
    assert(results.take(results.len() as int) =~= results);
}

proof fn lemma_warnings(
    requests: Seq<PermissionRequest>,
    universes: Seq<UniverseConfig>,
    sounds: Seq<String>,
    results: Seq<Result<(), SyncError>>,
    n: int,
)
    requires
        grants_all(requests, universes, sounds),
        results.len() == requests.len(),
        0 <= n <= results.len(),
        0 < sounds.len(),
    ensures
        ({
            let warnings = warnings_of(universes, sounds, results, sounds.len() as int, n);
            &&& successes_of(results.take(n)) + warnings.len() == n
            &&& forall|w: int|
                0 <= w < warnings.len() ==> {
                    let warning = #[trigger] warnings[w];
                    &&& 0 <= warning.position < n
                    &&& results[warning.position] is Err
                    &&& grants(requests[warning.position], warning.universe_id, warning.sound)
                }
        }),
    decreases n,
{
    if n == 0 {
        assert(results.take(0).len() == 0);
    } else {
        let k = n - 1;
        let width = sounds.len() as int;
        lemma_warnings(requests, universes, sounds, results, k);
        assert(results.take(n).drop_last() =~= results.take(k));
        assert((k % width) % width == k % width) by (nonlinear_arith)
            requires
                0 < width,
        ;
        assert(grants(requests[k], universes[k / width].id, sounds[k % width]@));
    }
}

} // verus!
