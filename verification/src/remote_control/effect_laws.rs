//! Laws of enrollments, told in their fields.

use super::EnrollmentError;
use super::EnrollmentKeyView;
use super::RemoteControlEnrollmentRecord;
use super::RemoteControlEnrollmentStore;
use crate::table::Row;
use vstd::prelude::*;

verus! {

/// The key of an enrollment: its address, its account and its client name, where no name counts as the empty
/// one.
pub open spec fn key_for(websocket_url: Seq<char>, account_id: Seq<char>, client_name: Option<&str>) -> EnrollmentKeyView {
    EnrollmentKeyView {
        websocket_url,
        account_id,
        client_name: if client_name is Some {
            client_name->0@
        } else {
            Seq::empty()
        },
    }
}

/// What is read is the enrollment with that address, account and client name.
pub proof fn law_enrollment_is_read_by_its_values(
    store: &RemoteControlEnrollmentStore,
    websocket_url: &str,
    account_id: &str,
    client_name: Option<&str>,
    result: Result<Option<RemoteControlEnrollmentRecord>, EnrollmentError>,
)
    requires
        call_ensures(RemoteControlEnrollmentStore::get, (store, websocket_url, account_id, client_name), result),
    ensures
        result is Err <==> store@.closed,
        ({
            let key = key_for(websocket_url@, account_id@, client_name);
            &&& result is Ok ==> (result->Ok_0 is Some <==> store@.enrollments.contains_key(key))
            &&& result is Ok && result->Ok_0 is Some ==> result->Ok_0->0@ == store@.enrollments[key]
        }),
{
}

/// A stored enrollment holds what was given, except that whether remote control is enabled stays as it was
/// for one that was there. No name and the empty name are the same. Others stay as they are.
pub proof fn law_enrollment_is_stored_as_given(
    store: &mut RemoteControlEnrollmentStore,
    enrollment: &RemoteControlEnrollmentRecord,
    result: Result<(), EnrollmentError>,
)
    requires
        call_ensures(RemoteControlEnrollmentStore::upsert, (store, enrollment), result),
    ensures
        result is Err <==> old(store)@.closed,
        result is Err ==> final(store)@ == old(store)@,
        result is Ok ==> {
            let key = EnrollmentKeyView {
                websocket_url: enrollment.websocket_url@,
                account_id: enrollment.account_id@,
                client_name: if enrollment.app_server_client_name is Some {
                    enrollment.app_server_client_name->0@
                } else {
                    Seq::empty()
                },
            };
            let stored = final(store)@.enrollments[key];
            &&& final(store)@.enrollments.contains_key(key)
            &&& stored.websocket_url == enrollment.websocket_url@
            &&& stored.account_id == enrollment.account_id@
            &&& stored.server_id == enrollment.server_id@
            &&& stored.environment_id == enrollment.environment_id@
            &&& stored.server_name == enrollment.server_name@
            &&& stored.app_server_client_name is Some <==> enrollment.app_server_client_name is Some && enrollment.app_server_client_name->0@.len() > 0
            &&& stored.app_server_client_name is Some ==> stored.app_server_client_name->0 == enrollment.app_server_client_name->0@
            &&& old(store)@.enrollments.contains_key(key) ==> stored.remote_control_enabled == old(store)@.enrollments[key].remote_control_enabled
            &&& !old(store)@.enrollments.contains_key(key) ==> stored.remote_control_enabled == enrollment.remote_control_enabled
            &&& forall|other: EnrollmentKeyView| other != key ==> (#[trigger] final(store)@.enrollments.contains_key(other) <==> old(store)@.enrollments.contains_key(other))
            &&& forall|other: EnrollmentKeyView| other != key && #[trigger] old(store)@.enrollments.contains_key(other) ==> final(store)@.enrollments[other]
                == old(store)@.enrollments[other]
        },
{
    if result is Ok {
        let key = EnrollmentKeyView {
            websocket_url: enrollment.websocket_url@,
            account_id: enrollment.account_id@,
            client_name: if enrollment.app_server_client_name is Some {
                enrollment.app_server_client_name->0@
            } else {
                Seq::empty()
            },
        };
        assert(RemoteControlEnrollmentRecord::key_of(enrollment@) == key);
        let merged = super::merged_enrollment(enrollment@, old(store)@.found(key));
        assert(super::client_name_key(merged.app_server_client_name) =~= key.client_name);
        assert(RemoteControlEnrollmentRecord::key_of(merged) == key);
    }
}

/// Remote control is enabled or disabled for the enrollment with the given values, and nothing else of it
/// changes. The answer is how many there are.
pub proof fn law_remote_control_is_enabled(
    store: &mut RemoteControlEnrollmentStore,
    websocket_url: &str,
    account_id: &str,
    client_name: Option<&str>,
    enabled: bool,
    result: Result<u64, EnrollmentError>,
)
    requires
        call_ensures(RemoteControlEnrollmentStore::set_enabled, (store, websocket_url, account_id, client_name, enabled), result),
    ensures
        result is Err <==> old(store)@.closed,
        result is Err ==> final(store)@ == old(store)@,
        result is Ok ==> {
            let key = key_for(websocket_url@, account_id@, client_name);
            &&& result->Ok_0 == (if old(store)@.enrollments.contains_key(key) {
                1int
            } else {
                0
            })
            &&& final(store)@.enrollments.dom() == old(store)@.enrollments.dom()
            &&& old(store)@.enrollments.contains_key(key) ==> {
                let before = old(store)@.enrollments[key];
                let after = final(store)@.enrollments[key];
                &&& after.remote_control_enabled == Some(enabled)
                &&& after.websocket_url == before.websocket_url
                &&& after.account_id == before.account_id
                &&& after.app_server_client_name == before.app_server_client_name
                &&& after.server_id == before.server_id
                &&& after.environment_id == before.environment_id
                &&& after.server_name == before.server_name
            }
            &&& forall|other: EnrollmentKeyView| other != key && #[trigger] old(store)@.enrollments.contains_key(other) ==> final(store)@.enrollments[other]
                == old(store)@.enrollments[other]
        },
{
    if result is Ok {
        assert(final(store)@.enrollments.dom() =~= old(store)@.enrollments.dom());
    }
}

/// The enrollment with the given values is removed, and no other. The answer is how many were.
pub proof fn law_enrollment_is_removed(
    store: &mut RemoteControlEnrollmentStore,
    websocket_url: &str,
    account_id: &str,
    client_name: Option<&str>,
    result: Result<u64, EnrollmentError>,
)
    requires
        call_ensures(RemoteControlEnrollmentStore::delete, (store, websocket_url, account_id, client_name), result),
    ensures
        result is Err <==> old(store)@.closed,
        result is Err ==> final(store)@ == old(store)@,
        result is Ok ==> {
            let key = key_for(websocket_url@, account_id@, client_name);
            &&& result->Ok_0 == (if old(store)@.enrollments.contains_key(key) {
                1int
            } else {
                0
            })
            &&& !final(store)@.enrollments.contains_key(key)
            &&& forall|other: EnrollmentKeyView| other != key && #[trigger] old(store)@.enrollments.contains_key(other) ==> final(store)@.enrollments.contains_key(other)
                && final(store)@.enrollments[other] == old(store)@.enrollments[other]
        },
{
}

/// The stored form of a client name is the name, or empty without one; an empty one stands for no name.
pub proof fn law_client_names(name: Option<&str>, key: String, stored: String, read: Option<String>)
    requires
        call_ensures(super::app_server_client_name_key, (name,), key),
        call_ensures(super::app_server_client_name_from_key, (stored,), read),
    ensures
        name is Some ==> key@ == name->0@,
        name is None ==> key@.len() == 0,
        read is Some <==> stored@.len() > 0,
        read is Some ==> read->0@ == stored@,
{
}

} // verus!
