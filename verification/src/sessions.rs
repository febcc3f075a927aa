use vstd::prelude::*;
use vstd::string::*;

use crate::error::{is_validation, validation, AppError, AppResult};

verus! {

/// A session ends after eight hours without activity.
pub const IDLE_TTL_SECONDS: i64 = 28_800;

/// A session ends twenty-four hours after it was created, whatever its
/// activity.
pub const ABSOLUTE_TTL_SECONDS: i64 = 86_400;

/// A stored session as the session lookup found it.
pub struct StoredSession {
    pub user_id: String,
    pub last_seen_at_unix: i64,
    pub expires_at_unix: i64,
    pub revoked_at_unix: Option<i64>,
}

/// A session is live at `now` when it was not revoked, has not reached its
/// absolute expiry and was active within the idle time.
pub open spec fn session_live(last_seen: i64, expires: i64, revoked: Option<i64>, now: i64) -> bool {
    &&& revoked is None
    &&& expires > now
    &&& last_seen + IDLE_TTL_SECONDS > now
}

/// The absolute expiry of a session created at `now`.
pub fn session_expiry(now: i64) -> (r: i64)
    requires
        now <= i64::MAX - ABSOLUTE_TTL_SECONDS,
    ensures
        r == now + ABSOLUTE_TTL_SECONDS,
{
    now + ABSOLUTE_TTL_SECONDS
}

/// Whether a session is still live at `now`.
pub fn is_session_live(last_seen: i64, expires: i64, revoked: Option<i64>, now: i64) -> (r: bool)
    ensures
        r == session_live(last_seen, expires, revoked, now),
{
    revoked.is_none() && expires > now && (last_seen as i128) + (IDLE_TTL_SECONDS as i128) > (now as i128)
}

/// The message for an unknown session.
pub open spec fn invalid_session_message() -> Seq<char> {
    "用户会话无效，请重新登录"@
}

/// The message for an ended session.
pub open spec fn expired_session_message() -> Seq<char> {
    "用户会话已过期，请重新登录"@
}

/// Authenticates a session found by its token hashes: the session's user
/// when it is live at `now`.
pub fn check_session(session: Option<StoredSession>, now: i64) -> (r: AppResult<String>)
    ensures
        session is None ==> (r matches Err(AppError::Unauthorized(m)) && m@ == invalid_session_message()),
        session matches Some(s) ==> (session_live(
            s.last_seen_at_unix,
            s.expires_at_unix,
            s.revoked_at_unix,
            now,
        ) ==> r == Ok::<String, AppError>(s.user_id)),
        session matches Some(s) ==> (!session_live(
            s.last_seen_at_unix,
            s.expires_at_unix,
            s.revoked_at_unix,
            now,
        ) ==> (r matches Err(AppError::Unauthorized(m)) && m@ == expired_session_message())),
{
    match session {
        None => Err(AppError::Unauthorized(String::from_str("用户会话无效，请重新登录"))),
        Some(s) => if is_session_live(s.last_seen_at_unix, s.expires_at_unix, s.revoked_at_unix, now) {
            Ok(s.user_id)
        } else {
            Err(AppError::Unauthorized(String::from_str("用户会话已过期，请重新登录")))
        },
    }
}

/// Law: however often a session is used, it is never live once twenty-four
/// hours have passed since it was created.
pub proof fn law_session_ends_after_absolute_ttl(
    created: i64,
    last_seen: i64,
    revoked: Option<i64>,
    now: i64,
)
    requires
        created <= i64::MAX - ABSOLUTE_TTL_SECONDS,
        now >= created + ABSOLUTE_TTL_SECONDS,
    ensures
        !session_live(last_seen, (created + ABSOLUTE_TTL_SECONDS) as i64, revoked, now),
{
}

/// Law: a session left idle for eight hours is not live.
pub proof fn law_idle_session_ends(last_seen: i64, expires: i64, revoked: Option<i64>, now: i64)
    requires
        now - last_seen >= IDLE_TTL_SECONDS,
    ensures
        !session_live(last_seen, expires, revoked, now),
{
}

/// Law: a revoked session is never live again.
pub proof fn law_revoked_session_ends(last_seen: i64, expires: i64, at: i64, now: i64)
    ensures
        !session_live(last_seen, expires, Some(at), now),
{
}

/// Authenticates a session at `now`: `lookup` finds the session of the
/// presented token hashes; a live one is then marked as seen by `touch`
/// (with `now`) and its user is the answer.  An unknown or ended session is
/// refused without being touched.
pub fn authenticate<L: FnOnce() -> AppResult<Option<StoredSession>>, T: FnOnce(i64) -> AppResult<usize>>(
    now: i64,
    lookup: L,
    touch: T,
) -> (r: AppResult<String>)
    requires
        call_requires(lookup, ()),
        call_requires(touch, (now,)),
    ensures
        match r {
            Ok(user) => exists|s: StoredSession, n: usize|
                #[trigger] call_ensures(lookup, (), Ok::<Option<StoredSession>, AppError>(Some(s)))
                    && session_live(s.last_seen_at_unix, s.expires_at_unix, s.revoked_at_unix, now)
                    && user == s.user_id && #[trigger] call_ensures(touch, (now,), Ok::<usize, AppError>(n)),
            Err(e) => {
                ||| call_ensures(lookup, (), Err::<Option<StoredSession>, AppError>(e))
                ||| (call_ensures(lookup, (), Ok::<Option<StoredSession>, AppError>(None)) && (e matches AppError::Unauthorized(m) && m@
                    == invalid_session_message()))
                ||| exists|s: StoredSession|
                    #[trigger] call_ensures(lookup, (), Ok::<Option<StoredSession>, AppError>(Some(s)))
                        && !session_live(s.last_seen_at_unix, s.expires_at_unix, s.revoked_at_unix, now)
                        && (e matches AppError::Unauthorized(m) && m@ == expired_session_message())
                ||| call_ensures(touch, (now,), Err::<usize, AppError>(e))
            },
        },
{
    let found = lookup();
    let session = match found {
        Ok(s) => s,
        Err(e) => {
            return Err(e);
        },
    };
    let ghost g = session;
    let user = match check_session(session, now) {
        Ok(u) => u,
        Err(e) => {
            return Err(e);
        },
    };
    let touched = touch(now);
    match touched {
        Ok(n) => {
            assert(call_ensures(touch, (now,), Ok::<usize, AppError>(n)));
            assert(call_ensures(lookup, (), Ok::<Option<StoredSession>, AppError>(Some(g->0))));
            Ok(user)
        },
        Err(e) => Err(e),
    }
}

/// An approval decision must have updated a pending request; none means
/// the request does not exist or was decided already.
pub fn check_approval_decided(changed: usize) -> (r: AppResult<()>)
    ensures
        r is Ok <==> changed > 0,
        r matches Err(e) ==> is_validation(e, "审批单不存在或已处理，不能重复审批"@),
{
    if changed == 0 {
        Err(validation("审批单不存在或已处理，不能重复审批"))
    } else {
        Ok(())
    }
}

} // verus!
