use vstd::prelude::*;
use crate::outcome::{DataObjectAction, ProcessResult};
use crate::record::{has_str_spec, opt_view, str_or, Record, RecordView, ValueView};
use crate::unique::unique_verdict;

verus! {

pub const MSG_DIRECT_EDIT: &'static str = "Can't edit password directly";

pub const MSG_OLD_EMPTY: &'static str = "Old password is empty";

pub const MSG_CHALLENGE_FAILED: &'static str = "Password change challenge failed";

/// The salt assumed for a stored user that has none.
pub const SALT_PLACEHOLDER: &'static str = "<empty salt>";

/// What the password-change challenge needs next.
pub enum ChallengeStep {
    /// The edit is decided; the record needs no more change.
    Finish(ProcessResult),
    /// A new record needs a fresh salt: hand it to [`challenge_salt`].
    NewSalt,
    /// The host must check `plaintext` against the stored `hash`: hand the
    /// answer to [`challenge_verified`].
    Verify { plaintext: String, hash: String },
    /// The host must hash `plaintext` with `salt`: hand the hash to
    /// [`challenge_commit`].
    Hash { plaintext: String, salt: String },
}

/// The mathematical form of a [`ChallengeStep`].
pub ghost enum StepView {
    Finish(bool, Seq<char>),
    NewSalt,
    Verify(Seq<char>, Seq<char>),
    Hash(Seq<char>, Seq<char>),
}

impl View for ChallengeStep {
    type V = StepView;

    open spec fn view(&self) -> StepView {
        match self {
            ChallengeStep::Finish(p) => StepView::Finish(p.succeeded, p.error@),
            ChallengeStep::NewSalt => StepView::NewSalt,
            ChallengeStep::Verify { plaintext, hash } => StepView::Verify(plaintext@, hash@),
            ChallengeStep::Hash { plaintext, salt } => StepView::Hash(plaintext@, salt@),
        }
    }
}

/// The edit carries all three attributes of a password change.
pub open spec fn has_challenge(itm: RecordView) -> bool {
    &&& has_str_spec(itm, "__password"@)
    &&& has_str_spec(itm, "__new_password1"@)
    &&& has_str_spec(itm, "__new_password2"@)
}

/// The edit sets the stored hash or salt itself.
pub open spec fn writes_credentials(itm: RecordView) -> bool {
    has_str_spec(itm, "password"@) || has_str_spec(itm, "salt"@)
}

/// The password the editor proves to know.
pub open spec fn supplied(itm: RecordView) -> Seq<char> {
    str_or(itm, "__password"@, ""@)
}

/// The stored one-time code matches the supplied password.
pub open spec fn otp_matches(old: RecordView, itm: RecordView) -> bool {
    let otp = str_or(old, "otp"@, ""@);
    otp.len() > 0 && otp == supplied(itm)
}

/// The decision once the host has said whether the supplied password
/// verifies against the stored hash (`verified`).
pub open spec fn decide_spec(
    is_admin: bool,
    old: RecordView,
    itm: RecordView,
    verified: bool,
) -> StepView {
    let authorized = is_admin || verified || otp_matches(old, itm);
    if !authorized || str_or(itm, "__new_password1"@, "<bad1>"@) != str_or(
        itm,
        "__new_password2"@,
        "<bad2>"@,
    ) {
        StepView::Finish(false, MSG_CHALLENGE_FAILED@)
    } else {
        StepView::Hash(
            str_or(itm, "__new_password1"@, ""@),
            str_or(old, "salt"@, SALT_PLACEHOLDER@),
        )
    }
}

/// The first step of the challenge for an edit of `itm` (stored as `old`,
/// if it exists) in `collection`.
pub open spec fn begin_spec(
    is_admin: bool,
    collection: Seq<char>,
    old: Option<RecordView>,
    itm: RecordView,
    action: DataObjectAction,
) -> StepView {
    if action == DataObjectAction::Delete || collection != "user"@ {
        StepView::Finish(true, Seq::empty())
    } else {
        match old {
            None => StepView::NewSalt,
            Some(o) => {
                if writes_credentials(itm) {
                    StepView::Finish(false, MSG_DIRECT_EDIT@)
                } else if !has_challenge(itm) {
                    StepView::Finish(true, Seq::empty())
                } else if !is_admin && supplied(itm).len() == 0 {
                    StepView::Finish(false, MSG_OLD_EMPTY@)
                } else if !is_admin && str_or(o, "password"@, ""@).len() > 0 {
                    StepView::Verify(supplied(itm), str_or(o, "password"@, ""@))
                } else {
                    decide_spec(is_admin, o, itm, false)
                }
            },
        }
    }
}

/// Decides a password change once the host has said whether the supplied
/// password verifies against the stored hash: fails unless the editor is
/// an administrator, the password verified or it equals the stored one-time
/// code, and the two new passwords agree; else asks for the new hash.
pub fn challenge_verified(
    is_admin: bool,
    old: &Record,
    itm: &Record,
    verified: bool,
) -> (r: ChallengeStep)
    ensures
        r@ == decide_spec(is_admin, old@, itm@, verified),
{
    let old_otp = old.safe_str("otp", "");
    let given = itm.safe_str("__password", "");
    let authorized = is_admin || verified || (!old_otp.as_str().is_empty() && old_otp == given);
    if !authorized || itm.safe_str("__new_password1", "<bad1>") != itm.safe_str(
        "__new_password2",
        "<bad2>",
    ) {
        return ChallengeStep::Finish(ProcessResult::fail(MSG_CHALLENGE_FAILED));
    }
    ChallengeStep::Hash {
        plaintext: itm.safe_str("__new_password1", ""),
        salt: old.safe_str("salt", SALT_PLACEHOLDER),
    }
}

/// Starts the challenge that guards the credentials of users: deletions
/// and other collections pass; an edit of a stored user may not set the
/// hash or salt itself; a new user needs a salt; an edit that carries a
/// password change must prove the old password (see [`challenge_verified`]).
pub fn challenge_begin(
    is_admin: bool,
    collection: &str,
    old: &Option<Record>,
    itm: &Record,
    action: DataObjectAction,
) -> (r: ChallengeStep)
    ensures
        r@ == begin_spec(is_admin, collection@, opt_view(*old), itm@, action),
{
    if action == DataObjectAction::Delete || !collection.eq("user") {
        return ChallengeStep::Finish(ProcessResult::ok());
    }
    match old {
        None => ChallengeStep::NewSalt,
        Some(o) => {
            if itm.has_str("password") || itm.has_str("salt") {
                return ChallengeStep::Finish(ProcessResult::fail(MSG_DIRECT_EDIT));
            }
            if !(itm.has_str("__password") && itm.has_str("__new_password1") && itm.has_str(
                "__new_password2",
            )) {
                return ChallengeStep::Finish(ProcessResult::ok());
            }
            let given = itm.safe_str("__password", "");
            proof {
                reveal_strlit("");
            }
            if !is_admin && given.as_str().is_empty() {
                return ChallengeStep::Finish(ProcessResult::fail(MSG_OLD_EMPTY));
            }
            let old_hash = o.safe_str("password", "");
            if !is_admin && !old_hash.as_str().is_empty() {
                return ChallengeStep::Verify { plaintext: given, hash: old_hash };
            }
            challenge_verified(is_admin, o, itm, false)
        },
    }
}

/// Gives a new user its fresh salt; the edit succeeds.
pub fn challenge_salt(itm: &mut Record, salt: &str) -> (r: ProcessResult)
    ensures
        final(itm)@.id == old(itm)@.id,
        final(itm)@.attrs == old(itm)@.attrs.insert("salt"@, ValueView::Str(salt@)),
        r.succeeded,
        r.error@ == Seq::<char>::empty(),
{
    itm.set_str("salt", salt);
    ProcessResult::ok()
}

/// The attributes of an edit after a granted password change: the
/// challenge and the one-time code gone, the new hash stored.
pub open spec fn committed(attrs: Map<Seq<char>, ValueView>, hash: Seq<char>) -> Map<
    Seq<char>,
    ValueView,
> {
    attrs.remove("__password"@).remove("__new_password1"@).remove("__new_password2"@).remove(
        "otp"@,
    ).insert("password"@, ValueView::Str(hash))
}

/// Completes a granted password change with the new hash; the edit succeeds.
pub fn challenge_commit(itm: &mut Record, password_hash: &str) -> (r: ProcessResult)
    ensures
        final(itm)@.id == old(itm)@.id,
        final(itm)@.attrs == committed(old(itm)@.attrs, password_hash@),
        r.succeeded,
        r.error@ == Seq::<char>::empty(),
{
    itm.remove("__password");
    itm.remove("__new_password1");
    itm.remove("__new_password2");
    itm.remove("otp");
    itm.set_str("password", password_hash);
    ProcessResult::ok()
}

/// Where the password change goes after its first step, once the host has
/// answered a verification with `verified`.
pub open spec fn after_verification(
    is_admin: bool,
    collection: Seq<char>,
    old: Option<RecordView>,
    itm: RecordView,
    action: DataObjectAction,
    verified: bool,
) -> StepView {
    match begin_spec(is_admin, collection, old, itm, action) {
        StepView::Verify(_, _) => decide_spec(is_admin, old.unwrap(), itm, verified),
        step => step,
    }
}

/// A deletion passes both the challenge and the uniqueness check, whatever
/// the records.
pub proof fn lemma_deletion_passes(
    is_admin: bool,
    collection: Seq<char>,
    old: Option<RecordView>,
    itm: RecordView,
    merge: bool,
    users: Seq<(u64, RecordView)>,
)
    ensures
        begin_spec(is_admin, collection, old, itm, DataObjectAction::Delete) == StepView::Finish(
            true,
            Seq::empty(),
        ),
        unique_verdict(old, itm, DataObjectAction::Delete, merge, users) is None,
{
}

/// An edit of a stored user that sets the password hash or the salt itself
/// is refused with its own message.
pub proof fn lemma_direct_write_refused(
    is_admin: bool,
    old: RecordView,
    itm: RecordView,
    action: DataObjectAction,
)
    requires
        action != DataObjectAction::Delete,
        writes_credentials(itm),
    ensures
        begin_spec(is_admin, "user"@, Some(old), itm, action) == StepView::Finish(
            false,
            MSG_DIRECT_EDIT@,
        ),
{
}

/// A password change of a stored user is granted (the host is asked for the
/// new hash) exactly when the old password verified against a stored hash,
/// the editor is an administrator or the supplied password is the stored
/// one-time code, and the two new passwords agree. Otherwise it ends in a
/// failure, so the record is never changed.
///
/// Left out: a non-administrator who supplies an empty old password, which
/// is refused before anything else.
pub proof fn lemma_rotation_granted_iff(
    is_admin: bool,
    old: RecordView,
    itm: RecordView,
    action: DataObjectAction,
    verified: bool,
)
    requires
        action != DataObjectAction::Delete,
        !writes_credentials(itm),
        has_challenge(itm),
        is_admin || supplied(itm).len() > 0,
    ensures
        after_verification(is_admin, "user"@, Some(old), itm, action, verified) is Hash <==> ((
        str_or(old, "password"@, ""@).len() > 0 && verified) || is_admin || otp_matches(old, itm))
            && str_or(itm, "__new_password1"@, ""@) == str_or(itm, "__new_password2"@, ""@),
        !(after_verification(is_admin, "user"@, Some(old), itm, action, verified) is Hash)
            ==> after_verification(is_admin, "user"@, Some(old), itm, action, verified)
            == StepView::Finish(false, MSG_CHALLENGE_FAILED@),
{
}

} // verus!
