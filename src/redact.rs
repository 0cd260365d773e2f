use vstd::prelude::*;
use crate::record::{bool_or, str_or, Record, RecordView, Value, ValueView};
use crate::unique::entries_view;

verus! {

/// What a listing shows of a user to a viewer who is that user, an
/// administrator, or where the record asks to stay visible: the name and
/// the role flags.
pub open spec fn user_card_full(r: RecordView) -> Map<Seq<char>, ValueView> {
    map![
        "name"@ => ValueView::Str(str_or(r, "name"@, ""@)),
        "role_is_active"@ => ValueView::Bool(bool_or(r, "role_is_active"@, false)),
        "role_is_admin"@ => ValueView::Bool(bool_or(r, "role_is_admin"@, false)),
    ]
}

/// What a listing shows of a user to anybody else: the name.
pub open spec fn user_card_short(r: RecordView) -> Map<Seq<char>, ValueView> {
    map!["name"@ => ValueView::Str(str_or(r, "name"@, ""@))]
}

/// `attrs` with the attribute `key` of `r` added, where `r` has it.
pub open spec fn copy_attr(
    attrs: Map<Seq<char>, ValueView>,
    r: RecordView,
    key: Seq<char>,
) -> Map<Seq<char>, ValueView> {
    if r.attrs.contains_key(key) {
        attrs.insert(key, r.attrs[key])
    } else {
        attrs
    }
}

/// What a listing shows of a record of another collection: the name, and
/// the customer and ticket reference where the record has them.
pub open spec fn generic_card(r: RecordView) -> Map<Seq<char>, ValueView> {
    copy_attr(copy_attr(user_card_short(r), r, "customer"@), r, "ticket_ref"@)
}

/// The record asks to stay visible whoever views it.
pub open spec fn preserved(r: RecordView) -> bool {
    bool_or(r, "__security_preserve"@, false)
}

/// The viewer may see the whole of the user record under `key`.
pub open spec fn privileged(viewer: u64, is_admin: bool, key: u64, r: RecordView) -> bool {
    key == viewer || is_admin || preserved(r)
}

/// The entry under `key` stays in the result.
pub open spec fn kept(
    viewer: u64,
    is_admin: bool,
    users: bool,
    detail: bool,
    key: u64,
    r: RecordView,
) -> bool {
    !(detail && users) || privileged(viewer, is_admin, key, r)
}

/// What the result holds for a kept entry.
pub open spec fn shown(
    viewer: u64,
    is_admin: bool,
    users: bool,
    detail: bool,
    key: u64,
    r: RecordView,
) -> RecordView {
    if detail {
        if users {
            RecordView { id: r.id, attrs: r.attrs.remove("salt"@).remove("password"@) }
        } else {
            r
        }
    } else if users {
        if privileged(viewer, is_admin, key, r) {
            RecordView { id: key, attrs: user_card_full(r) }
        } else {
            RecordView { id: key, attrs: user_card_short(r) }
        }
    } else {
        RecordView { id: key, attrs: generic_card(r) }
    }
}

/// The result of the filter on `entries`, in their order.
pub open spec fn redacted(
    viewer: u64,
    is_admin: bool,
    users: bool,
    detail: bool,
    entries: Seq<(u64, RecordView)>,
) -> Seq<(u64, RecordView)>
    decreases entries.len(),
{
    if entries.len() == 0 {
        Seq::empty()
    } else {
        let rest = redacted(viewer, is_admin, users, detail, entries.drop_last());
        let (key, r) = entries.last();
        if kept(viewer, is_admin, users, detail, key, r) {
            rest.push((key, shown(viewer, is_admin, users, detail, key, r)))
        } else {
            rest
        }
    }
}

/// The result of the filter: nothing for an anonymous viewer; otherwise
/// the entries redacted for the viewer's identifier.
pub open spec fn filter_spec(
    viewer: Option<u64>,
    is_admin: bool,
    collection: Seq<char>,
    context: Seq<char>,
    entries: Seq<(u64, RecordView)>,
) -> Seq<(u64, RecordView)> {
    match viewer {
        None => Seq::empty(),
        Some(v) => redacted(v, is_admin, collection == "user"@, context == "full"@, entries),
    }
}

fn copy_into(card: &mut Record, r: &Record, key: &str)
    ensures
        final(card)@.id == old(card)@.id,
        final(card)@.attrs == copy_attr(old(card)@.attrs, r@, key@),
{
    match r.get(key) {
        Some(v) => card.set(key, v.duplicate()),
        None => {},
    }
}

fn shown_exec(
    viewer: u64,
    is_admin: bool,
    users: bool,
    detail: bool,
    key: u64,
    r: &Record,
) -> (s: Record)
    ensures
        s@ == shown(viewer, is_admin, users, detail, key, r@),
{
    proof {
        reveal_strlit("name");
        reveal_strlit("role_is_active");
        reveal_strlit("role_is_admin");
    }
    if detail {
        let mut s = r.duplicate();
        if users {
            s.remove("salt");
            s.remove("password");
        }
        s
    } else {
        let mut s = Record::new(key);
        s.set_str("name", r.safe_str("name", "").as_str());
        if users {
            if key == viewer || is_admin || r.safe_bool("__security_preserve", false) {
                s.set_bool("role_is_active", r.safe_bool("role_is_active", false));
                s.set_bool("role_is_admin", r.safe_bool("role_is_admin", false));
                assert(s@.attrs =~= user_card_full(r@));
            } else {
                assert(s@.attrs =~= user_card_short(r@));
            }
        } else {
            copy_into(&mut s, r, "customer");
            copy_into(&mut s, r, "ticket_ref");
            assert(s@.attrs =~= generic_card(r@));
        }
        s
    }
}

/// Redacts a set of records for a viewer. An anonymous viewer sees
/// nothing. A listing (any context but "full") keeps every entry: users
/// show their name, and their role flags where the viewer is that user or
/// an administrator or the record asks to stay visible; other records show
/// their name, customer and ticket reference. The full view of users drops
/// the users the viewer may not see and strips salt and password from the
/// rest; the full view of other records is unchanged.
pub fn item_list_filter(
    viewer: &Option<Record>,
    is_admin: bool,
    collection: &str,
    context: &str,
    entries: &Vec<(u64, Record)>,
) -> (r: Vec<(u64, Record)>)
    ensures
        entries_view(r@) == filter_spec(
            match viewer {
                Some(v) => Some(v@.id),
                None => None,
            },
            is_admin,
            collection@,
            context@,
            entries_view(entries@),
        ),
{
    let mut out: Vec<(u64, Record)> = Vec::new();
    let viewer_id = match viewer {
        None => {
            assert(entries_view(out@) =~= Seq::<(u64, RecordView)>::empty());
            return out;
        },
        Some(v) => v.id(),
    };
    let users = collection.eq("user");
    let detail = context.eq("full");
    let ghost all = entries_view(entries@);
    let mut i: usize = 0;
    while i < entries.len()
        invariant
            0 <= i <= entries@.len(),
            all == entries_view(entries@),
            all.len() == entries@.len(),
            entries_view(out@) == redacted(viewer_id, is_admin, users, detail, all.take(i as int)),
        decreases entries@.len() - i,
    {
        let key = entries[i].0;
        let r = &entries[i].1;
        let ghost before = out@;
        assert(all.take(i + 1).drop_last() == all.take(i as int));
        assert(all.take(i + 1).last() == (key, r@));
        if !(detail && users) || key == viewer_id || is_admin || r.safe_bool(
            "__security_preserve",
            false,
        ) {
            let s = shown_exec(viewer_id, is_admin, users, detail, key, r);
            out.push((key, s));
            assert(entries_view(out@) =~= entries_view(before).push((key, s@)));
        }
        i = i + 1;
    }
    assert(all.take(entries@.len() as int) == all);
    out
}

/// Each entry of the result is a kept entry of the input, as shown.
pub proof fn lemma_redacted_origin(
    viewer: u64,
    is_admin: bool,
    users: bool,
    detail: bool,
    entries: Seq<(u64, RecordView)>,
    j: int,
)
    requires
        0 <= j < redacted(viewer, is_admin, users, detail, entries).len(),
    ensures
        exists|i: int|
            0 <= i < entries.len() && kept(viewer, is_admin, users, detail, entries[i].0, entries[i].1)
                && #[trigger] redacted(viewer, is_admin, users, detail, entries)[j] == (
                entries[i].0,
                shown(viewer, is_admin, users, detail, entries[i].0, entries[i].1),
            ),
    decreases entries.len(),
{
    let rest = redacted(viewer, is_admin, users, detail, entries.drop_last());
    if j < rest.len() {
        lemma_redacted_origin(viewer, is_admin, users, detail, entries.drop_last(), j);
        let i = choose|i: int|
            0 <= i < entries.drop_last().len() && kept(
                viewer,
                is_admin,
                users,
                detail,
                entries.drop_last()[i].0,
                entries.drop_last()[i].1,
            ) && #[trigger] rest[j] == (
                entries.drop_last()[i].0,
                shown(viewer, is_admin, users, detail, entries.drop_last()[i].0, entries.drop_last()[i].1),
            );
        assert(entries[i] == entries.drop_last()[i]);
    } else {
        assert(entries[entries.len() - 1] == entries.last());
    }
}

/// In a listing of users, no entry shows a password, a salt, a phone
/// number or the insurance flag, whoever views it.
pub proof fn lemma_listing_hides_private(
    viewer: u64,
    is_admin: bool,
    context: Seq<char>,
    entries: Seq<(u64, RecordView)>,
    j: int,
)
    requires
        context != "full"@,
        0 <= j < filter_spec(Some(viewer), is_admin, "user"@, context, entries).len(),
    ensures
        ({
            let attrs = filter_spec(Some(viewer), is_admin, "user"@, context, entries)[j].1.attrs;
            &&& !attrs.contains_key("password"@)
            &&& !attrs.contains_key("salt"@)
            &&& !attrs.contains_key("phone"@)
            &&& !attrs.contains_key("has_insurance"@)
        }),
{
    reveal_strlit("name");
    reveal_strlit("role_is_active");
    reveal_strlit("role_is_admin");
    reveal_strlit("password");
    reveal_strlit("salt");
    reveal_strlit("phone");
    reveal_strlit("has_insurance");
    lemma_redacted_origin(viewer, is_admin, true, false, entries, j);
    let out = redacted(viewer, is_admin, true, false, entries);
    let i = choose|i: int|
        0 <= i < entries.len() && kept(viewer, is_admin, true, false, entries[i].0, entries[i].1)
            && #[trigger] out[j] == (
            entries[i].0,
            shown(viewer, is_admin, true, false, entries[i].0, entries[i].1),
        );
    let attrs = out[j].1.attrs;
    let r = entries[i].1;
    assert(attrs == user_card_full(r) || attrs == user_card_short(r));
    assert(user_card_full(r).dom() =~= set!["name"@, "role_is_active"@, "role_is_admin"@]);
    assert(user_card_short(r).dom() =~= set!["name"@]);
    assert("salt"@[0] != "name"@[0]);
    assert("phone"@[0] != "name"@[0]);
    assert("password"@.len() != "name"@.len());
    assert("password"@.len() != "role_is_admin"@.len());
    assert("password"@.len() != "role_is_active"@.len());
    assert("has_insurance"@[0] != "role_is_admin"@[0]);
}

/// The keys of a set of records are distinct, as those of a map are.
pub open spec fn keys_distinct(entries: Seq<(u64, RecordView)>) -> bool {
    forall|a: int, b: int|
        0 <= a < entries.len() && 0 <= b < entries.len() && a != b ==> entries[a].0 != entries[b].0
}

/// In the full view of users, a user that is not the viewer, is not asked
/// to stay visible and is viewed by somebody who is no administrator is
/// absent from the result.
pub proof fn lemma_full_view_drops_others(
    viewer: u64,
    is_admin: bool,
    entries: Seq<(u64, RecordView)>,
    i: int,
)
    requires
        keys_distinct(entries),
        0 <= i < entries.len(),
        entries[i].0 != viewer,
        !is_admin,
        !preserved(entries[i].1),
    ensures
        forall|j: int|
            0 <= j < filter_spec(Some(viewer), is_admin, "user"@, "full"@, entries).len()
                ==> #[trigger] filter_spec(Some(viewer), is_admin, "user"@, "full"@, entries)[j].0
                != entries[i].0,
{
    assert forall|j: int|
        0 <= j < filter_spec(Some(viewer), is_admin, "user"@, "full"@, entries).len()
            implies #[trigger] filter_spec(Some(viewer), is_admin, "user"@, "full"@, entries)[j].0
            != entries[i].0 by {
        lemma_redacted_origin(viewer, is_admin, true, true, entries, j);
    }
}

} // verus!
