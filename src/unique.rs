use vstd::prelude::*;
use crate::outcome::{DataObjectAction, ProcessResult};
use crate::record::{opt_view, str_or, Record, RecordView};
use crate::text::{lower_of, lowercase};

verus! {

pub const MSG_EMAIL_EMPTY: &'static str = "E-Mail must not be empty";

pub const MSG_LOGIN_TAKEN: &'static str = "Login mustn't match already existing one";

pub const MSG_EMAIL_TAKEN: &'static str = "E-Mail mustn't match already existing one";

/// The record that an edit leaves behind: with `merge`, the attributes of
/// `itm` laid over those of `old` (or over nothing, for a new record);
/// otherwise `itm` itself.
pub open spec fn effective(old: Option<RecordView>, itm: RecordView, merge: bool) -> RecordView {
    if merge {
        let base = match old {
            Some(o) => o,
            None => RecordView { id: 0, attrs: Map::empty() },
        };
        RecordView { id: base.id, attrs: base.attrs.union_prefer_right(itm.attrs) }
    } else {
        itm
    }
}

/// The message for the stored user `u` (under key `key`) when a record with
/// identifier `id`, lower-cased login `login` and lower-cased e-mail `email`
/// would collide with it; `None` where it would not.
pub open spec fn clash(
    key: u64,
    u: RecordView,
    id: u64,
    login: Seq<char>,
    email: Seq<char>,
) -> Option<Seq<char>> {
    if key == id {
        None
    } else if login.len() > 0 && login == lower_of(str_or(u, "login"@, ""@)) {
        Some(MSG_LOGIN_TAKEN@)
    } else if email == lower_of(str_or(u, "email"@, ""@)) {
        Some(MSG_EMAIL_TAKEN@)
    } else {
        None
    }
}

/// The first collision in `users`, in their order.
pub open spec fn first_clash(
    users: Seq<(u64, RecordView)>,
    id: u64,
    login: Seq<char>,
    email: Seq<char>,
) -> Option<Seq<char>>
    decreases users.len(),
{
    if users.len() == 0 {
        None
    } else {
        match clash(users[0].0, users[0].1, id, login, email) {
            Some(m) => Some(m),
            None => first_clash(users.drop_first(), id, login, email),
        }
    }
}

/// A set of records as keys and record views.
pub open spec fn entries_view(users: Seq<(u64, Record)>) -> Seq<(u64, RecordView)> {
    users.map_values(|u: (u64, Record)| (u.0, u.1@))
}

/// What the uniqueness check decides: `None` for success, or the message.
pub open spec fn unique_verdict(
    old: Option<RecordView>,
    itm: RecordView,
    action: DataObjectAction,
    merge: bool,
    users: Seq<(u64, RecordView)>,
) -> Option<Seq<char>> {
    if action == DataObjectAction::Delete {
        None
    } else {
        let email = lower_of(str_or(effective(old, itm, merge), "email"@, ""@));
        let login = lower_of(str_or(itm, "login"@, ""@));
        if email.len() == 0 {
            Some(MSG_EMAIL_EMPTY@)
        } else {
            first_clash(users, itm.id, login, email)
        }
    }
}

/// Checks that the e-mail of the edited user is set, and that neither its
/// e-mail nor its login (where set) is that of another stored user, case
/// folded. `users` holds every stored user under its identifier.
pub fn check_unique_login_email(
    old: &Option<Record>,
    itm: &Record,
    action: DataObjectAction,
    merge: bool,
    users: &Vec<(u64, Record)>,
) -> (r: ProcessResult)
    ensures
        r.succeeded <==> unique_verdict(opt_view(*old), itm@, action, merge, entries_view(users@))
            is None,
        match unique_verdict(opt_view(*old), itm@, action, merge, entries_view(users@)) {
            Some(m) => r.error@ == m,
            None => r.error@ == Seq::<char>::empty(),
        },
{
    if action == DataObjectAction::Delete {
        return ProcessResult::ok();
    }
    let email_src = if merge {
        let mut upd = match old {
            Some(o) => o.duplicate(),
            None => Record::new(0),
        };
        upd.merge(itm);
        upd.safe_str("email", "")
    } else {
        itm.safe_str("email", "")
    };
    let email = lowercase(email_src.as_str());
    let login = lowercase(itm.safe_str("login", "").as_str());
    proof {
        reveal_strlit("");
    }
    if email.as_str().is_empty() {
        return ProcessResult::fail(MSG_EMAIL_EMPTY);
    }
    let ghost all = entries_view(users@);
    assert(all.skip(0) == all);
    let mut i: usize = 0;
    while i < users.len()
        invariant
            0 <= i <= users@.len(),
            all == entries_view(users@),
            all.len() == users@.len(),
            action != DataObjectAction::Delete,
            email@.len() > 0,
            email@ == lower_of(str_or(effective(opt_view(*old), itm@, merge), "email"@, ""@)),
            login@ == lower_of(str_or(itm@, "login"@, ""@)),
            first_clash(all, itm@.id, login@, email@) == first_clash(
                all.skip(i as int),
                itm@.id,
                login@,
                email@,
            ),
        decreases users@.len() - i,
    {
        let key = users[i].0;
        let u = &users[i].1;
        let ghost rest = all.skip(i as int);
        assert(all[i as int] == (key, u@));
        assert(rest[0] == (key, u@));
        assert(rest.drop_first() == all.skip(i + 1));
        if key != itm.id() {
            let other_login = lowercase(u.safe_str("login", "").as_str());
            if !login.as_str().is_empty() && login == other_login {
                return ProcessResult::fail(MSG_LOGIN_TAKEN);
            }
            let other_email = lowercase(u.safe_str("email", "").as_str());
            if email == other_email {
                return ProcessResult::fail(MSG_EMAIL_TAKEN);
            }
        }
        i = i + 1;
    }
    ProcessResult::ok()
}

proof fn lemma_first_clash_found(
    users: Seq<(u64, RecordView)>,
    id: u64,
    login: Seq<char>,
    email: Seq<char>,
    k: int,
)
    requires
        0 <= k < users.len(),
        clash(users[k].0, users[k].1, id, login, email) is Some,
    ensures
        first_clash(users, id, login, email) is Some,
    decreases users.len(),
{
    if k > 0 && clash(users[0].0, users[0].1, id, login, email) is None {
        assert(users.drop_first()[k - 1] == users[k]);
        lemma_first_clash_found(users.drop_first(), id, login, email, k - 1);
    }
}

proof fn lemma_first_clash_absent(
    users: Seq<(u64, RecordView)>,
    id: u64,
    login: Seq<char>,
    email: Seq<char>,
)
    requires
        forall|k: int| 0 <= k < users.len() ==> clash(users[k].0, users[k].1, id, login, email) is None,
    ensures
        first_clash(users, id, login, email) is None,
    decreases users.len(),
{
    if users.len() > 0 {
        assert(clash(users[0].0, users[0].1, id, login, email) is None);
        assert forall|k: int| 0 <= k < users.drop_first().len() implies clash(
            users.drop_first()[k].0,
            users.drop_first()[k].1,
            id,
            login,
            email,
        ) is None by {
            assert(users.drop_first()[k] == users[k + 1]);
        }
        lemma_first_clash_absent(users.drop_first(), id, login, email);
    }
}

/// The case-folded e-mail that an edit leaves behind.
pub open spec fn folded_email(old: Option<RecordView>, itm: RecordView, merge: bool) -> Seq<char> {
    lower_of(str_or(effective(old, itm, merge), "email"@, ""@))
}

/// An edit that would give a user the e-mail of another stored user (case
/// folded) is refused.
pub proof fn lemma_shared_email_refused(
    old: Option<RecordView>,
    itm: RecordView,
    action: DataObjectAction,
    merge: bool,
    users: Seq<(u64, RecordView)>,
    k: int,
)
    requires
        action != DataObjectAction::Delete,
        0 <= k < users.len(),
        users[k].0 != itm.id,
        lower_of(str_or(users[k].1, "email"@, ""@)) == folded_email(old, itm, merge),
    ensures
        unique_verdict(old, itm, action, merge, users) is Some,
{
    if folded_email(old, itm, merge).len() > 0 {
        lemma_first_clash_found(
            users,
            itm.id,
            lower_of(str_or(itm, "login"@, ""@)),
            folded_email(old, itm, merge),
            k,
        );
    }
}

/// An edit whose e-mail is set and whose e-mail and login (where set) no
/// other stored user has is accepted, even where the stored record of the
/// same user has them: a user never collides with itself.
pub proof fn lemma_own_email_accepted(
    old: Option<RecordView>,
    itm: RecordView,
    action: DataObjectAction,
    merge: bool,
    users: Seq<(u64, RecordView)>,
)
    requires
        folded_email(old, itm, merge).len() > 0,
        forall|k: int|
            0 <= k < users.len() && users[k].0 != itm.id ==> {
                &&& lower_of(str_or(users[k].1, "email"@, ""@)) != folded_email(old, itm, merge)
                &&& (lower_of(str_or(itm, "login"@, ""@)).len() == 0 || lower_of(
                    str_or(users[k].1, "login"@, ""@),
                ) != lower_of(str_or(itm, "login"@, ""@)))
            },
    ensures
        unique_verdict(old, itm, action, merge, users) is None,
{
    lemma_first_clash_absent(
        users,
        itm.id,
        lower_of(str_or(itm, "login"@, ""@)),
        folded_email(old, itm, merge),
    );
}

} // verus!
