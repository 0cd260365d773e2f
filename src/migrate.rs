use vstd::prelude::*;
use crate::record::{has_str_spec, str_or, Record, RecordView, ValueView};

verus! {

/// What the salt backfill on read needs next.
pub enum ReadStep {
    /// Nothing more to do; tells whether the record was migrated.
    Done(bool),
    /// The record needs a fresh salt: hand it to [`migrate_salted`].
    NewSalt,
    /// The stored password must be hashed again with the new salt: hand the
    /// hash to [`migrate_rehashed`].
    Rehash { password: String, salt: String },
}

/// The mathematical form of a [`ReadStep`].
pub ghost enum ReadStepView {
    Done(bool),
    NewSalt,
    Rehash(Seq<char>, Seq<char>),
}

impl View for ReadStep {
    type V = ReadStepView;

    open spec fn view(&self) -> ReadStepView {
        match self {
            ReadStep::Done(b) => ReadStepView::Done(*b),
            ReadStep::NewSalt => ReadStepView::NewSalt,
            ReadStep::Rehash { password, salt } => ReadStepView::Rehash(password@, salt@),
        }
    }
}

/// A user record read without a salt needs one; anything else is left.
pub open spec fn read_begin_spec(collection: Seq<char>, itm: RecordView) -> ReadStepView {
    if collection == "user"@ && !has_str_spec(itm, "salt"@) {
        ReadStepView::NewSalt
    } else {
        ReadStepView::Done(false)
    }
}

/// `itm` with the text `value` under `key`.
pub open spec fn with_str(itm: RecordView, key: Seq<char>, value: Seq<char>) -> RecordView {
    RecordView { id: itm.id, attrs: itm.attrs.insert(key, ValueView::Str(value)) }
}

/// The step after the salt is set on `itm` (as it was before).
pub open spec fn salted_step_spec(itm: RecordView, salt: Seq<char>) -> ReadStepView {
    if has_str_spec(itm, "password"@) {
        ReadStepView::Rehash(str_or(itm, "password"@, ""@), salt)
    } else {
        ReadStepView::Done(true)
    }
}

/// Starts the salt backfill for a record read from `collection`.
pub fn migrate_begin(collection: &str, itm: &Record) -> (r: ReadStep)
    ensures
        r@ == read_begin_spec(collection@, itm@),
{
    if collection.eq("user") && !itm.has_str("salt") {
        ReadStep::NewSalt
    } else {
        ReadStep::Done(false)
    }
}

/// Stores the fresh salt; asks for the stored password to be hashed with
/// it, where there is one.
pub fn migrate_salted(itm: &mut Record, salt: &str) -> (r: ReadStep)
    ensures
        final(itm)@ == with_str(old(itm)@, "salt"@, salt@),
        r@ == salted_step_spec(old(itm)@, salt@),
{
    let step = if itm.has_str("password") {
        ReadStep::Rehash { password: itm.safe_str("password", ""), salt: salt.to_owned() }
    } else {
        ReadStep::Done(true)
    };
    itm.set_str("salt", salt);
    step
}

/// Stores the password hashed with the new salt; the record was migrated.
pub fn migrate_rehashed(itm: &mut Record, password_hash: &str) -> (r: bool)
    ensures
        final(itm)@ == with_str(old(itm)@, "password"@, password_hash@),
        r,
{
    itm.set_str("password", password_hash);
    true
}

/// Once a user record has been given a non-empty salt (and, where it had
/// a password, the password hashed again), it holds a non-empty salt and a
/// second read migrates nothing.
pub proof fn lemma_migration_settles(itm: RecordView, salt: Seq<char>, password_hash: Seq<char>)
    requires
        salt.len() > 0,
    ensures
        ({
            let salted = with_str(itm, "salt"@, salt);
            let rehashed = with_str(salted, "password"@, password_hash);
            &&& str_or(salted, "salt"@, ""@).len() > 0
            &&& str_or(rehashed, "salt"@, ""@).len() > 0
            &&& read_begin_spec("user"@, salted) == ReadStepView::Done(false)
            &&& read_begin_spec("user"@, rehashed) == ReadStepView::Done(false)
        }),
{
    reveal_strlit("salt");
    reveal_strlit("password");
    assert("salt"@.len() != "password"@.len());
}

} // verus!
