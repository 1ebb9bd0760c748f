//! A session persisted as one JSON document:
//! `<base_dir>/<session_id>/messages.json`.
use vstd::prelude::*;

use crate::text::{join_path, join_path_spec, to_owned};

verus! {

/// Where a session's messages document lives.
#[derive(Debug, Clone)]
pub struct FileSessionManager {
    session_id: String,
    directory: String,
}

impl FileSessionManager {
    /// The session's id.
    pub closed spec fn id_spec(&self) -> Seq<char> {
        self.session_id@
    }

    /// The base directory.
    pub closed spec fn dir_spec(&self) -> Seq<char> {
        self.directory@
    }

    /// A manager for `session_id` under `base_dir`.
    pub fn new(session_id: &str, base_dir: &str) -> (r: FileSessionManager)
        ensures
            r.id_spec() == session_id@,
            r.dir_spec() == base_dir@,
    {
        FileSessionManager { session_id: to_owned(session_id), directory: to_owned(base_dir) }
    }

    /// The session's directory: `<base_dir>/<session_id>`.
    pub fn session_path(&self) -> (r: String)
        ensures
            r@ == join_path_spec(self.dir_spec(), self.id_spec()),
    {
        join_path(self.directory.as_str(), self.session_id.as_str())
    }

    /// The messages document: `<base_dir>/<session_id>/messages.json`.
    pub fn messages_path(&self) -> (r: String)
        ensures
            r@ == join_path_spec(join_path_spec(self.dir_spec(), self.id_spec()), "messages.json"@),
    {
        let d = self.session_path();
        join_path(d.as_str(), "messages.json")
    }

    /// The session's id.
    pub fn get_session(&self) -> (r: &str)
        ensures
            r@ == self.id_spec(),
    {
        self.session_id.as_str()
    }
}

} // verus!
