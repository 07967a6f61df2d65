//! Enrollments of remote-control servers, and whether remote control is enabled for them.

pub mod effect_laws;
pub mod laws;

use crate::table::Row;
use crate::table::Table;
use crate::text::str_view;
use crate::thread_id::opt_view;
use crate::threads::clone_text;
use vstd::prelude::*;
use vstd::string::*;

verus! {

/// An enrollment, with the values that it is found by.
#[derive(Debug, PartialEq, Eq)]
pub struct RemoteControlEnrollmentRecord {
    pub websocket_url: String,
    pub account_id: String,
    pub app_server_client_name: Option<String>,
    pub server_id: String,
    pub environment_id: String,
    pub server_name: String,
    pub remote_control_enabled: Option<bool>,
}

#[verifier::ext_equal]
pub struct EnrollmentView {
    pub websocket_url: Seq<char>,
    pub account_id: Seq<char>,
    pub app_server_client_name: Option<Seq<char>>,
    pub server_id: Seq<char>,
    pub environment_id: Seq<char>,
    pub server_name: Seq<char>,
    pub remote_control_enabled: Option<bool>,
}

impl View for RemoteControlEnrollmentRecord {
    type V = EnrollmentView;

    open spec fn view(&self) -> EnrollmentView {
        EnrollmentView {
            websocket_url: self.websocket_url@,
            account_id: self.account_id@,
            app_server_client_name: opt_view(self.app_server_client_name),
            server_id: self.server_id@,
            environment_id: self.environment_id@,
            server_name: self.server_name@,
            remote_control_enabled: self.remote_control_enabled,
        }
    }
}

impl Clone for RemoteControlEnrollmentRecord {
    fn clone(&self) -> (copy: Self)
        ensures
            copy == *self,
    {
        RemoteControlEnrollmentRecord {
            websocket_url: self.websocket_url.clone(),
            account_id: self.account_id.clone(),
            app_server_client_name: clone_text(&self.app_server_client_name),
            server_id: self.server_id.clone(),
            environment_id: self.environment_id.clone(),
            server_name: self.server_name.clone(),
            remote_control_enabled: self.remote_control_enabled,
        }
    }
}

/// What an enrollment is found by. The client name is empty for an enrollment without one.
pub struct EnrollmentKey {
    websocket_url: String,
    account_id: String,
    client_name: String,
}

#[verifier::ext_equal]
pub struct EnrollmentKeyView {
    pub websocket_url: Seq<char>,
    pub account_id: Seq<char>,
    pub client_name: Seq<char>,
}

impl View for EnrollmentKey {
    type V = EnrollmentKeyView;

    closed spec fn view(&self) -> EnrollmentKeyView {
        EnrollmentKeyView { websocket_url: self.websocket_url@, account_id: self.account_id@, client_name: self.client_name@ }
    }
}

/// The stored form of a client name: no name is the empty name.
pub open spec fn client_name_key(name: Option<Seq<char>>) -> Seq<char> {
    match name {
        Some(name) => name,
        None => Seq::empty(),
    }
}

/// The client name with the given stored form.
pub open spec fn client_name_from_key(key: Seq<char>) -> Option<Seq<char>> {
    if key.len() == 0 {
        None
    } else {
        Some(key)
    }
}

pub fn app_server_client_name_key(name: Option<&str>) -> (key: String)
    ensures
        key@ == client_name_key(str_view(name)),
{
    match name {
        Some(name) => name.to_owned(),
        None => String::new(),
    }
}

pub fn app_server_client_name_from_key(key: String) -> (name: Option<String>)
    ensures
        opt_view(name) == client_name_from_key(key@),
{
    if key.as_str().is_empty() {
        None
    } else {
        Some(key)
    }
}

/// The key of the given values.
pub open spec fn enrollment_key(websocket_url: Seq<char>, account_id: Seq<char>, client_name: Option<Seq<char>>) -> EnrollmentKeyView {
    EnrollmentKeyView { websocket_url, account_id, client_name: client_name_key(client_name) }
}

fn key_of_values(websocket_url: &str, account_id: &str, client_name: Option<&str>) -> (key: EnrollmentKey)
    ensures
        key@ == enrollment_key(websocket_url@, account_id@, str_view(client_name)),
{
    EnrollmentKey {
        websocket_url: websocket_url.to_owned(),
        account_id: account_id.to_owned(),
        client_name: app_server_client_name_key(client_name),
    }
}

fn same_client(a: &Option<String>, b: &Option<String>) -> (same: bool)
    ensures
        same == (client_name_key(opt_view(*a)) == client_name_key(opt_view(*b))),
{
    match (a, b) {
        (Some(a), Some(b)) => *a == *b,
        (Some(a), None) => {
            assert(a@.len() == 0 ==> a@ =~= Seq::<char>::empty());
            a.as_str().is_empty()
        },
        (None, Some(b)) => {
            assert(b@.len() == 0 ==> b@ =~= Seq::<char>::empty());
            b.as_str().is_empty()
        },
        (None, None) => true,
    }
}

impl Row for RemoteControlEnrollmentRecord {
    type Key = EnrollmentKey;

    open spec fn key_of(row: EnrollmentView) -> EnrollmentKeyView {
        enrollment_key(row.websocket_url, row.account_id, row.app_server_client_name)
    }

    fn has_key(&self, key: &EnrollmentKey) -> (found: bool) {
        let client = match &self.app_server_client_name {
            Some(name) => *name == key.client_name,
            None => {
                assert(key.client_name@.len() == 0 ==> key.client_name@ =~= Seq::<char>::empty());
                key.client_name.as_str().is_empty()
            },
        };
        let found = self.websocket_url == key.websocket_url && self.account_id == key.account_id && client;
        assert(found ==> Self::key_of(self@) =~= key@);
        found
    }

    fn same_key(&self, other: &Self) -> (same: bool) {
        let same = self.websocket_url == other.websocket_url && self.account_id == other.account_id && same_client(
            &self.app_server_client_name,
            &other.app_server_client_name,
        );
        assert(same ==> Self::key_of(self@) =~= Self::key_of(other@));
        same
    }

    fn duplicate(&self) -> (copy: Self) {
        self.clone()
    }
}

#[derive(Clone, Copy, Debug, PartialEq, Eq, Structural)]
pub enum EnrollmentOperation {
    Get,
    Upsert,
    SetEnabled,
    Delete,
}

/// The store is closed.
#[derive(Clone, Copy, Debug, PartialEq, Eq, Structural)]
pub struct EnrollmentError {
    pub operation: EnrollmentOperation,
}

impl EnrollmentError {
    pub open spec fn text(self) -> Seq<char> {
        "Runtime State could not complete the `"@ + (match self.operation {
            EnrollmentOperation::Get => "get remote control enrollment"@,
            EnrollmentOperation::Upsert => "upsert remote control enrollment"@,
            EnrollmentOperation::SetEnabled => "set remote control enabled"@,
            EnrollmentOperation::Delete => "delete remote control enrollment"@,
        }) + "` operation; verify enrollment persistence health, then retry"@
    }

    pub fn message(&self) -> (text: String)
        ensures
            text@ == self.text(),
    {
        let mut text = "Runtime State could not complete the `".to_owned();
        text.append(
            match self.operation {
                EnrollmentOperation::Get => "get remote control enrollment",
                EnrollmentOperation::Upsert => "upsert remote control enrollment",
                EnrollmentOperation::SetEnabled => "set remote control enabled",
                EnrollmentOperation::Delete => "delete remote control enrollment",
            },
        );
        text.append("` operation; verify enrollment persistence health, then retry");
        text
    }
}

/// The enrollments.
pub struct RemoteControlEnrollmentStore {
    enrollments: Table<RemoteControlEnrollmentRecord>,
    closed: bool,
}

#[verifier::ext_equal]
pub struct EnrollmentStoreView {
    pub enrollments: Map<EnrollmentKeyView, EnrollmentView>,
    pub closed: bool,
}

impl View for RemoteControlEnrollmentStore {
    type V = EnrollmentStoreView;

    closed spec fn view(&self) -> EnrollmentStoreView {
        EnrollmentStoreView { enrollments: self.enrollments@, closed: self.closed }
    }
}

impl EnrollmentStoreView {
    pub open spec fn found(self, key: EnrollmentKeyView) -> Option<EnrollmentView> {
        if self.enrollments.contains_key(key) {
            Some(self.enrollments[key])
        } else {
            None
        }
    }

    pub open spec fn with(self, enrollment: EnrollmentView) -> EnrollmentStoreView {
        EnrollmentStoreView { enrollments: self.enrollments.insert(RemoteControlEnrollmentRecord::key_of(enrollment), enrollment), ..self }
    }
}

/// What is stored of an enrollment that replaces `existing`: whether remote control is enabled
/// stays as it was.
pub open spec fn merged_enrollment(enrollment: EnrollmentView, existing: Option<EnrollmentView>) -> EnrollmentView {
    EnrollmentView {
        app_server_client_name: client_name_from_key(client_name_key(enrollment.app_server_client_name)),
        remote_control_enabled: match existing {
            Some(existing) => existing.remote_control_enabled,
            None => enrollment.remote_control_enabled,
        },
        ..enrollment
    }
}

impl RemoteControlEnrollmentStore {
    pub fn new() -> (store: Self)
        ensures
            store@ == (EnrollmentStoreView { enrollments: Map::empty(), closed: false }),
    {
        RemoteControlEnrollmentStore { enrollments: Table::new(), closed: false }
    }

    /// Stops the store: from now on every operation fails.
    pub fn close(&mut self)
        ensures
            final(self)@ == (EnrollmentStoreView { closed: true, ..old(self)@ }),
    {
        self.closed = true;
    }

    /// The enrollment with the given values.
    pub fn get(
        &self,
        websocket_url: &str,
        account_id: &str,
        app_server_client_name: Option<&str>,
    ) -> (result: Result<Option<RemoteControlEnrollmentRecord>, EnrollmentError>)
        ensures
            match result {
                Ok(found) => !self@.closed && opt_view(found) == self@.found(
                    enrollment_key(websocket_url@, account_id@, str_view(app_server_client_name)),
                ),
                Err(error) => self@.closed && error.operation == EnrollmentOperation::Get,
            },
    {
        if self.closed {
            return Err(EnrollmentError { operation: EnrollmentOperation::Get });
        }
        let key = key_of_values(websocket_url, account_id, app_server_client_name);
        Ok(
            match self.enrollments.get(&key) {
                Some(enrollment) => Some(enrollment.clone()),
                None => None,
            },
        )
    }

    /// Stores an enrollment. One that is there is replaced, but whether remote control is enabled
    /// stays as it was.
    pub fn upsert(&mut self, enrollment: &RemoteControlEnrollmentRecord) -> (result: Result<(), EnrollmentError>)
        ensures
            match result {
                Ok(_) => {
                    &&& !old(self)@.closed
                    &&& final(self)@ == old(self)@.with(
                        merged_enrollment(enrollment@, old(self)@.found(RemoteControlEnrollmentRecord::key_of(enrollment@))),
                    )
                },
                Err(error) => {
                    &&& old(self)@.closed
                    &&& error.operation == EnrollmentOperation::Upsert
                    &&& final(self)@ == old(self)@
                },
            },
    {
        if self.closed {
            return Err(EnrollmentError { operation: EnrollmentOperation::Upsert });
        }
        let client_name = match &enrollment.app_server_client_name {
            Some(name) => name.clone(),
            None => String::new(),
        };
        let key = EnrollmentKey {
            websocket_url: enrollment.websocket_url.clone(),
            account_id: enrollment.account_id.clone(),
            client_name: client_name.clone(),
        };
        assert(key@ =~= RemoteControlEnrollmentRecord::key_of(enrollment@));
        let enabled = match self.enrollments.get(&key) {
            Some(existing) => existing.remote_control_enabled,
            None => enrollment.remote_control_enabled,
        };
        let mut stored = enrollment.clone();
        stored.app_server_client_name = app_server_client_name_from_key(client_name);
        stored.remote_control_enabled = enabled;
        assert(stored@ =~= merged_enrollment(enrollment@, old(self)@.found(key@)));
        self.enrollments.put(stored);
        Ok(())
    }

    /// Enables or disables remote control for an enrollment. Returns the number of enrollments
    /// that there are for the given values.
    pub fn set_enabled(
        &mut self,
        websocket_url: &str,
        account_id: &str,
        app_server_client_name: Option<&str>,
        remote_control_enabled: bool,
    ) -> (result: Result<u64, EnrollmentError>)
        ensures
            ({
                let key = enrollment_key(websocket_url@, account_id@, str_view(app_server_client_name));
                match result {
                    Ok(count) => {
                        &&& !old(self)@.closed
                        &&& match old(self)@.found(key) {
                            Some(existing) => {
                                &&& count == 1
                                &&& final(self)@ == (EnrollmentStoreView {
                                    enrollments: old(self)@.enrollments.insert(
                                        key,
                                        EnrollmentView { remote_control_enabled: Some(remote_control_enabled), ..existing },
                                    ),
                                    ..old(self)@
                                })
                            },
                            None => count == 0 && final(self)@ == old(self)@,
                        }
                    },
                    Err(error) => {
                        &&& old(self)@.closed
                        &&& error.operation == EnrollmentOperation::SetEnabled
                        &&& final(self)@ == old(self)@
                    },
                }
            }),
    {
        if self.closed {
            return Err(EnrollmentError { operation: EnrollmentOperation::SetEnabled });
        }
        let key = key_of_values(websocket_url, account_id, app_server_client_name);
        let mut changed = match self.enrollments.get(&key) {
            Some(existing) => existing.clone(),
            None => return Ok(0),
        };
        changed.remote_control_enabled = Some(remote_control_enabled);
        self.enrollments.put(changed);
        Ok(1)
    }

    /// Removes an enrollment. Returns the number of enrollments removed.
    pub fn delete(&mut self, websocket_url: &str, account_id: &str, app_server_client_name: Option<&str>) -> (result: Result<u64, EnrollmentError>)
        ensures
            ({
                let key = enrollment_key(websocket_url@, account_id@, str_view(app_server_client_name));
                match result {
                    Ok(count) => {
                        &&& !old(self)@.closed
                        &&& count == if old(self)@.enrollments.contains_key(key) {
                            1
                        } else {
                            0int
                        }
                        &&& final(self)@ == (EnrollmentStoreView { enrollments: old(self)@.enrollments.remove(key), ..old(self)@ })
                    },
                    Err(error) => {
                        &&& old(self)@.closed
                        &&& error.operation == EnrollmentOperation::Delete
                        &&& final(self)@ == old(self)@
                    },
                }
            }),
    {
        if self.closed {
            return Err(EnrollmentError { operation: EnrollmentOperation::Delete });
        }
        let key = key_of_values(websocket_url, account_id, app_server_client_name);
        match self.enrollments.remove(&key) {
            Some(_) => Ok(1),
            None => Ok(0),
        }
    }
}

} // verus!
