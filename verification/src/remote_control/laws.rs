//! Laws of the enrollments.

use super::client_name_from_key;
use super::client_name_key;
use super::enrollment_key;
use super::merged_enrollment;
use super::EnrollmentKeyView;
use super::EnrollmentStoreView;
use super::EnrollmentView;
use super::RemoteControlEnrollmentRecord;
use crate::table::Row;
use vstd::prelude::*;

verus! {

/// An enrollment is read back under its values as it was stored, and no other one changes.
pub proof fn law_stored_enrollment_is_read_back(store: EnrollmentStoreView, enrollment: EnrollmentView, other: EnrollmentKeyView)
    ensures
        ({
            let key = RemoteControlEnrollmentRecord::key_of(enrollment);
            let stored = merged_enrollment(enrollment, store.found(key));
            let after = store.with(stored);
            &&& after.found(key) == Some(stored)
            &&& stored.server_id == enrollment.server_id
            &&& stored.environment_id == enrollment.environment_id
            &&& stored.server_name == enrollment.server_name
            &&& other != key ==> after.found(other) == store.found(other)
        }),
{
    let key = RemoteControlEnrollmentRecord::key_of(enrollment);
    let stored = merged_enrollment(enrollment, store.found(key));
    law_empty_client_name_is_none(enrollment.app_server_client_name);
    assert(RemoteControlEnrollmentRecord::key_of(stored) =~= key);
}

/// Storing an enrollment again never changes whether remote control is enabled.
pub proof fn law_preference_outlasts_enrollment(store: EnrollmentStoreView, enrollment: EnrollmentView)
    requires
        store.found(RemoteControlEnrollmentRecord::key_of(enrollment)) is Some,
    ensures
        merged_enrollment(enrollment, store.found(RemoteControlEnrollmentRecord::key_of(enrollment))).remote_control_enabled == store.found(
            RemoteControlEnrollmentRecord::key_of(enrollment),
        )->0.remote_control_enabled,
{
}

/// The empty client name stands for none, and any other name is kept.
pub proof fn law_empty_client_name_is_none(name: Option<Seq<char>>)
    ensures
        client_name_key(client_name_from_key(client_name_key(name))) == client_name_key(name),
        name is Some && name->0.len() > 0 ==> client_name_from_key(client_name_key(name)) == name,
{
    assert(client_name_key(name).len() == 0 ==> client_name_key(name) =~= Seq::<char>::empty());
}

/// Enrollments of different accounts, addresses or clients are different enrollments.
pub proof fn law_keys_are_distinct(
    url: Seq<char>,
    account: Seq<char>,
    client: Option<Seq<char>>,
    other_url: Seq<char>,
    other_account: Seq<char>,
    other_client: Option<Seq<char>>,
)
    requires
        url != other_url || account != other_account || client_name_key(client) != client_name_key(other_client),
    ensures
        enrollment_key(url, account, client) != enrollment_key(other_url, other_account, other_client),
{
}

} // verus!
