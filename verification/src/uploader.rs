//! The uploader: which local files go to the store, and under which keys.

use crate::names::{
    is_wheel, is_wheel_name, lemma_pick_from_wheels, package_name, package_name_of, wheels_in,
    MalformedFilenameError,
};
use vstd::prelude::*;
use vstd::string::*;

verus! {

broadcast use vstd::seq_lib::group_seq_properties;

/// The content type that wheels are stored with.
pub const UPLOAD_CONTENT_TYPE: &'static str = "binary/octet-stream";

/// One file to send to the store.
#[derive(Debug, Clone, PartialEq, Eq)]
pub struct Upload {
    /// The file's name in the local directory.
    pub filename: String,
    /// The key to store it under.
    pub key: String,
    /// The content type to store it with.
    pub content_type: String,
}

/// An `Upload` as characters.
pub struct UploadView {
    pub filename: Seq<char>,
    pub key: Seq<char>,
    pub content_type: Seq<char>,
}

impl View for Upload {
    type V = UploadView;

    open spec fn view(&self) -> UploadView {
        UploadView { filename: self.filename@, key: self.key@, content_type: self.content_type@ }
    }
}

impl DeepView for Upload {
    type V = UploadView;

    open spec fn deep_view(&self) -> UploadView {
        self@
    }
}

/// What becomes of one entry of the local directory.
#[derive(Debug, Clone, PartialEq, Eq)]
pub enum UploadDecision {
    /// Not a wheel: nothing is sent.
    Skip,
    /// A wheel, to be sent once.
    Put(Upload),
    /// A wheel without a package name: nothing is sent, the error is reported.
    Reject(MalformedFilenameError),
}

/// An `UploadDecision` as characters.
pub enum UploadDecisionView {
    Skip,
    Put(UploadView),
    Reject(Seq<char>),
}

impl View for UploadDecision {
    type V = UploadDecisionView;

    open spec fn view(&self) -> UploadDecisionView {
        match self {
            UploadDecision::Skip => UploadDecisionView::Skip,
            UploadDecision::Put(upload) => UploadDecisionView::Put(upload@),
            UploadDecision::Reject(error) => UploadDecisionView::Reject(error@),
        }
    }
}

/// A wheel's key in the store: prefix, package name and filename, joined by
/// slashes.
pub open spec fn upload_key_of(
    prefix: Seq<char>,
    package: Seq<char>,
    filename: Seq<char>,
) -> Seq<char> {
    prefix + "/"@ + package + "/"@ + filename
}

/// The upload of the wheel `filename` of `package`.
pub open spec fn upload_of(
    prefix: Seq<char>,
    package: Seq<char>,
    filename: Seq<char>,
) -> UploadView {
    UploadView {
        filename,
        key: upload_key_of(prefix, package, filename),
        content_type: UPLOAD_CONTENT_TYPE@,
    }
}

/// What becomes of the directory entry `filename`.
pub open spec fn decision_of(prefix: Seq<char>, filename: Seq<char>) -> UploadDecisionView {
    if is_wheel_name(filename) {
        match package_name_of(filename) {
            Some(package) => UploadDecisionView::Put(upload_of(prefix, package, filename)),
            None => UploadDecisionView::Reject(filename),
        }
    } else {
        UploadDecisionView::Skip
    }
}

/// The uploads of a directory: one for each wheel with a package name, in
/// directory order.
pub open spec fn uploads_of(prefix: Seq<char>, filenames: Seq<Seq<char>>) -> Seq<UploadView> {
    filenames.filter(|name: Seq<char>| decision_of(prefix, name) is Put).map_values(
        |name: Seq<char>| decision_of(prefix, name)->Put_0,
    )
}

/// The wheels of a directory that have no package name, in directory order.
pub open spec fn refused_of(filenames: Seq<Seq<char>>) -> Seq<Seq<char>> {
    filenames.filter(|name: Seq<char>| is_wheel_name(name) && package_name_of(name) is None)
}

/// The key for the wheel `filename` of `package` under `prefix`.
pub fn upload_key(prefix: &str, package: &str, filename: &str) -> (key: String)
    ensures
        key@ == upload_key_of(prefix@, package@, filename@),
{
    let mut key = String::from_str(prefix);
    key.append("/");
    key.append(package);
    key.append("/");
    key.append(filename);
    key
}

/// Decides what to do with the directory entry `filename`.
pub fn decide_upload(prefix: &str, filename: &str) -> (decision: UploadDecision)
    ensures
        decision@ == decision_of(prefix@, filename@),
{
    if !is_wheel(filename) {
        return UploadDecision::Skip;
    }
    match package_name(filename) {
        Ok(package) => UploadDecision::Put(
            Upload {
                filename: String::from_str(filename),
                key: upload_key(prefix, package.as_str(), filename),
                content_type: String::from_str(UPLOAD_CONTENT_TYPE),
            },
        ),
        Err(error) => UploadDecision::Reject(error),
    }
}

/// What to send for a whole directory, and what was refused.
#[derive(Debug, Clone, PartialEq, Eq)]
pub struct UploadPlan {
    pub uploads: Vec<Upload>,
    pub rejected: Vec<MalformedFilenameError>,
}

/// Plans the uploads for the entries of a directory: every wheel with a
/// package name is sent once, in directory order; a wheel without one is
/// recorded in `rejected` and the rest is still sent; all else is passed over.
pub fn plan_uploads(prefix: &str, filenames: &Vec<String>) -> (plan: UploadPlan)
    ensures
        plan.uploads.deep_view() == uploads_of(prefix@, filenames.deep_view()),
        plan.rejected.deep_view() == refused_of(filenames.deep_view()),
{
    let ghost accepted = |name: Seq<char>| decision_of(prefix@, name) is Put;
    let ghost upload = |name: Seq<char>| decision_of(prefix@, name)->Put_0;
    let ghost refused = |name: Seq<char>| is_wheel_name(name) && package_name_of(name) is None;
    let mut uploads: Vec<Upload> = Vec::new();
    let mut rejected: Vec<MalformedFilenameError> = Vec::new();
    let mut i: usize = 0;
    proof {
        let none = filenames.deep_view().take(0);
        none.lemma_filter_len(accepted);
        none.lemma_filter_len(refused);
    }
    while i < filenames.len()
        invariant
            i <= filenames.len(),
            accepted == |name: Seq<char>| decision_of(prefix@, name) is Put,
            upload == |name: Seq<char>| decision_of(prefix@, name)->Put_0,
            refused == |name: Seq<char>| is_wheel_name(name) && package_name_of(name) is None,
            uploads.deep_view() == filenames.deep_view().take(i as int).filter(accepted).map_values(
                upload,
            ),
            rejected.deep_view() == filenames.deep_view().take(i as int).filter(refused),
        decreases filenames.len() - i,
    {
        let ghost seen = filenames.deep_view().take(i as int);
        let ghost name = filenames[i as int]@;
        proof {
            assert(filenames.deep_view().take(i + 1) =~= seen.push(name));
            seen.lemma_filter_push(name, accepted);
            seen.lemma_filter_push(name, refused);
            seen.filter(accepted).lemma_push_map_commute(upload, name);
        }
        match decide_upload(prefix, filenames[i].as_str()) {
            UploadDecision::Skip => {},
            UploadDecision::Put(next) => uploads.push(next),
            UploadDecision::Reject(error) => rejected.push(error),
        }
        i += 1;
    }
    UploadPlan { uploads, rejected }
}

/// Files without the wheel marker are never sent: every planned upload is a
/// wheel of the directory, and a directory's plan is that of its wheels
/// alone.
pub proof fn lemma_only_wheels_are_uploaded(prefix: Seq<char>, filenames: Seq<Seq<char>>)
    ensures
        forall|i: int|
            0 <= i < uploads_of(prefix, filenames).len() ==> {
                let upload = #[trigger] uploads_of(prefix, filenames)[i];
                is_wheel_name(upload.filename) && filenames.contains(upload.filename)
            },
        uploads_of(prefix, filenames) == uploads_of(prefix, wheels_in(filenames)),
        refused_of(filenames) == refused_of(wheels_in(filenames)),
{
    let accepted = |name: Seq<char>| decision_of(prefix, name) is Put;
    let upload = |name: Seq<char>| decision_of(prefix, name)->Put_0;
    let refused = |name: Seq<char>| is_wheel_name(name) && package_name_of(name) is None;
    lemma_pick_from_wheels(filenames, accepted);
    lemma_pick_from_wheels(filenames, refused);
    let sent = filenames.filter(accepted);
    assert forall|i: int| 0 <= i < uploads_of(prefix, filenames).len() implies {
        let upload = #[trigger] uploads_of(prefix, filenames)[i];
        is_wheel_name(upload.filename) && filenames.contains(upload.filename)
    } by {
        filenames.lemma_filter_pred(accepted, i);
        filenames.lemma_filter_contains_rev(accepted, sent[i]);
    }
}

} // verus!
