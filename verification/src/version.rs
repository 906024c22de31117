//! Target Apache Cloudberry version verification.

use crate::text::{contains_number, ends_at, ends_in};
use vstd::prelude::*;

verus! {

/// Asks the target for its version.
pub const VERSION_SQL: &'static str = "SELECT version()";

/// The version text is that of a supported target: it names release 2.1, and not a release such as
/// 2.10 whose number only begins so.
pub open spec fn is_supported(version: Seq<char>) -> bool {
    ends_in(version, "Apache Cloudberry 2.1"@)
}

/// Verify that the target is Apache Cloudberry 2.1.x, given its version text.
///
/// This service only supports Apache Cloudberry 2.1.x as the target. Other versions
/// (2.0, 2.2, 2.10, etc.) are explicitly rejected to maintain a single, well-tested
/// compatibility matrix.
pub fn verify_cloudberry_21_version(version: &str) -> (r: Result<(), String>)
    ensures
        match r {
            Ok(()) => is_supported(version@),
            Err(message) => !is_supported(version@) && message@
                == "This service only supports Apache Cloudberry 2.1.x target. Found: "@ + version@,
        },
{
    if contains_number(version, "Apache Cloudberry 2.1") {
        return Ok(());
    }
    let mut message = "This service only supports Apache Cloudberry 2.1.x target. Found: ".to_string();
    message.append(version);
    Err(message)
}

/// A release number is 2.1, or 2.1 with something behind it that is not a digit.
pub open spec fn is_release_21(release: Seq<char>) -> bool {
    &&& release.len() >= 3
    &&& release[0] == '2' && release[1] == '.' && release[2] == '1'
    &&& release.len() == 3 || !('0' <= release[3] <= '9')
}

/// Of the targets that call themselves Apache Cloudberry and name their release, exactly those are
/// supported whose release begins with the number 2.1; 2.0, 2.2 and 2.10 are not.
pub proof fn law_only_release_21_is_supported(release: Seq<char>)
    requires
        !release.contains('A'),
    ensures
        is_supported("Apache Cloudberry "@ + release) <==> is_release_21(release),
{
    reveal_strlit("Apache Cloudberry ");
    reveal_strlit("Apache Cloudberry 2.1");
    let name = "Apache Cloudberry "@;
    let pattern = "Apache Cloudberry 2.1"@;
    let text = name + release;
    assert(pattern =~= name + seq!['2', '.', '1']);
    assert forall|at: int| ends_at(text, pattern, at) implies at == 0 by {
        assert(text.subrange(at, at + pattern.len())[0] == text[at]);
        if at >= name.len() {
            assert(release[at - name.len()] == 'A');
        }
    }
    if is_supported(text) {
        let at = choose|at: int| ends_at(text, pattern, at);
        assert(text.subrange(0, pattern.len() as int) == pattern);
        assert(release[0] == text.subrange(0, pattern.len() as int)[18]);
        assert(release[1] == text.subrange(0, pattern.len() as int)[19]);
        assert(release[2] == text.subrange(0, pattern.len() as int)[20]);
    }
    if is_release_21(release) {
        assert(text.subrange(0, pattern.len() as int) =~= pattern);
        assert(ends_at(text, pattern, 0));
    }
}

} // verus!
