//! Discovery: reading the runtime's container list back into records of this system.
use vstd::prelude::*;
use crate::app::App;
use crate::docker::{
    name_prefix, ExistingContainer, ExistingContainerStatus, APP_ID_LABEL, APP_NAME_LABEL,
    CONTAINER_ID_LABEL, CONTAINER_NAME_LABEL, NAME_PREFIX,
};
use crate::ids::{b62_value, decodes_to_id, AppId, ContainerId, IdFormatError};
use crate::text::{starts_with, text_eq};

verus! {

/// A runtime container that this system manages, with the identity its labels carry.
#[derive(Debug, Clone)]
pub struct ExistingAppContainer {
    pub docker_container_id: String,
    pub docker_container_name: String,
    pub app_id: AppId,
    pub app_name: String,
    pub container_id: ContainerId,
    pub container_name: String,
    pub status: ExistingContainerStatus,
}

/// Why a managed runtime container could not be read.
#[derive(Debug, Clone)]
pub enum DecodeError {
    /// The label of this key is absent.
    MissingLabel(String),
    /// The label of this key does not hold an identifier.
    InvalidId { label: String, error: IdFormatError },
}

/// The value of the first label with this key.
pub open spec fn label_value(labels: Seq<(String, String)>, key: Seq<char>) -> Option<Seq<char>>
    decreases labels.len(),
{
    if labels.len() == 0 {
        None
    } else {
        match label_value(labels.drop_last(), key) {
            Some(v) => Some(v),
            None => if labels.last().0@ == key {
                Some(labels.last().1@)
            } else {
                None
            },
        }
    }
}

/// A first match in a prefix stays the first match.
proof fn lemma_label_prefix(labels: Seq<(String, String)>, i: int, key: Seq<char>)
    requires
        0 <= i <= labels.len(),
        label_value(labels.subrange(0, i), key) is Some,
    ensures
        label_value(labels, key) == label_value(labels.subrange(0, i), key),
    decreases labels.len(),
{
    if i < labels.len() {
        assert(labels.drop_last().subrange(0, i) =~= labels.subrange(0, i));
        lemma_label_prefix(labels.drop_last(), i, key);
    } else {
        assert(labels.subrange(0, i) =~= labels);
    }
}

/// The value of the first label with key `key`.
pub fn find_label<'a>(labels: &'a Vec<(String, String)>, key: &str) -> (r: Option<&'a String>)
    ensures
        r is None <==> label_value(labels@, key@) is None,
        r matches Some(v) ==> label_value(labels@, key@) == Some(v@),
{
    let n = labels.len();
    let mut i: usize = 0;
    while i < n
        invariant
            n == labels@.len(),
            i <= n,
            label_value(labels@.subrange(0, i as int), key@) is None,
        decreases n - i,
    {
        let ghost pre = labels@.subrange(0, i as int);
        let ghost next = labels@.subrange(0, i as int + 1);
        assert(next.drop_last() =~= pre);
        if text_eq(labels[i].0.as_str(), key) {
            proof {
                lemma_label_prefix(labels@, i as int + 1, key@);
            }
            return Some(&labels[i].1);
        }
        i += 1;
    }
    assert(labels@.subrange(0, n as int) =~= labels@);
    None
}

/// The runtime name without a leading `/`.
pub open spec fn stripped_name(n: Seq<char>) -> Seq<char> {
    if n.len() > 0 && n[0] == '/' {
        n.drop_first()
    } else {
        n
    }
}

/// The runtime container has exactly one name, and it carries the managed prefix.
pub open spec fn is_managed(c: ExistingContainer) -> bool {
    c.names@.len() == 1 && {
        let n = stripped_name(c.names@[0]@);
        name_prefix().len() <= n.len() && n.subrange(0, name_prefix().len() as int) == name_prefix()
    }
}

/// All four identity labels are present and both ids decode.
pub open spec fn labels_readable(labels: Seq<(String, String)>) -> bool {
    &&& label_value(labels, APP_ID_LABEL@) is Some
    &&& decodes_to_id(label_value(labels, APP_ID_LABEL@)->Some_0)
    &&& label_value(labels, APP_NAME_LABEL@) is Some
    &&& label_value(labels, CONTAINER_ID_LABEL@) is Some
    &&& decodes_to_id(label_value(labels, CONTAINER_ID_LABEL@)->Some_0)
    &&& label_value(labels, CONTAINER_NAME_LABEL@) is Some
}

/// `e` is the record that the runtime container `c` reads as.
pub open spec fn decodes_as(c: ExistingContainer, e: ExistingAppContainer) -> bool {
    let l = c.labels@;
    &&& e.docker_container_id == c.docker_container_id
    &&& e.docker_container_name@ == stripped_name(c.names@[0]@)
    &&& e.app_id.0 == b62_value(label_value(l, APP_ID_LABEL@)->Some_0)
    &&& e.app_name@ == label_value(l, APP_NAME_LABEL@)->Some_0
    &&& e.container_id.0 == b62_value(label_value(l, CONTAINER_ID_LABEL@)->Some_0)
    &&& e.container_name@ == label_value(l, CONTAINER_NAME_LABEL@)->Some_0
    &&& e.status == c.status
}

/// The error names a real defect of the labels.
pub open spec fn decode_error_fits(labels: Seq<(String, String)>, e: DecodeError) -> bool {
    match e {
        DecodeError::MissingLabel(k) => label_value(labels, k@) is None && (k@ == APP_ID_LABEL@
            || k@ == APP_NAME_LABEL@ || k@ == CONTAINER_ID_LABEL@ || k@ == CONTAINER_NAME_LABEL@),
        DecodeError::InvalidId { label, .. } => (label@ == APP_ID_LABEL@ || label@
            == CONTAINER_ID_LABEL@) && label_value(labels, label@) is Some && !decodes_to_id(
            label_value(labels, label@)->Some_0,
        ),
    }
}

/// Reads a label holding an identifier.
fn id_label(labels: &Vec<(String, String)>, key: &str) -> (r: Result<u64, DecodeError>)
    ensures
        r is Ok <==> (label_value(labels@, key@) is Some && decodes_to_id(
            label_value(labels@, key@)->Some_0,
        )),
        r matches Ok(v) ==> v == b62_value(label_value(labels@, key@)->Some_0),
        r matches Err(e) ==> match e {
            DecodeError::MissingLabel(k) => k@ == key@ && label_value(labels@, key@) is None,
            DecodeError::InvalidId { label, .. } => label@ == key@ && label_value(labels@, key@) is Some
                && !decodes_to_id(label_value(labels@, key@)->Some_0),
        },
{
    match find_label(labels, key) {
        None => Err(DecodeError::MissingLabel(String::from_str(key))),
        Some(v) => match AppId::decode(v.as_str()) {
            Ok(id) => Ok(id.0),
            Err(error) => Err(DecodeError::InvalidId { label: String::from_str(key), error }),
        },
    }
}

/// Reads a label holding text.
fn text_label(labels: &Vec<(String, String)>, key: &str) -> (r: Result<String, DecodeError>)
    ensures
        r is Ok <==> label_value(labels@, key@) is Some,
        r matches Ok(v) ==> label_value(labels@, key@) == Some(v@),
        r matches Err(e) ==> e matches DecodeError::MissingLabel(k) && k@ == key@,
{
    match find_label(labels, key) {
        None => Err(DecodeError::MissingLabel(String::from_str(key))),
        Some(v) => Ok(v.clone()),
    }
}

impl ExistingAppContainer {
    /// Reads a runtime container: `None` when it is not managed by this system (not
    /// exactly one name, or a name without the managed prefix), an error when one of
    /// the four identity labels is missing or an id label does not decode.
    pub fn decode(from: ExistingContainer) -> (r: Result<Option<ExistingAppContainer>, DecodeError>)
        ensures
            !is_managed(from) ==> r matches Ok(None),
            is_managed(from) ==> (r is Ok <==> labels_readable(from.labels@)),
            is_managed(from) ==> !(r matches Ok(None)),
            r matches Ok(Some(e)) ==> decodes_as(from, e),
            r matches Err(e) ==> decode_error_fits(from.labels@, e),
    {
        if from.names.len() != 1 {
            return Ok(None);
        }
        proof {
            reveal_strlit("/");
        }
        let raw = from.names[0].as_str();
        let name = if starts_with(raw, "/") {
            assert("/"@ =~= seq!['/']);
            assert(raw@.subrange(0, 1)[0] == raw@[0]);
            assert(raw@[0] == '/');
            let s = raw.substring_char(1, raw.unicode_len());
            assert(s@ =~= stripped_name(raw@));
            s
        } else {
            assert(!(raw@.len() > 0 && raw@[0] == '/')) by {
                if raw@.len() > 0 && raw@[0] == '/' {
                    assert(raw@.subrange(0, 1) =~= "/"@);
                }
            }
            raw
        };
        proof {
            reveal_strlit("onix_");
        }
        assert(NAME_PREFIX@ =~= name_prefix());
        if !starts_with(name, NAME_PREFIX) {
            return Ok(None);
        }
        let app_id = match id_label(&from.labels, APP_ID_LABEL) {
            Ok(v) => v,
            Err(e) => return Err(e),
        };
        let app_name = match text_label(&from.labels, APP_NAME_LABEL) {
            Ok(v) => v,
            Err(e) => return Err(e),
        };
        let container_id = match id_label(&from.labels, CONTAINER_ID_LABEL) {
            Ok(v) => v,
            Err(e) => return Err(e),
        };
        let container_name = match text_label(&from.labels, CONTAINER_NAME_LABEL) {
            Ok(v) => v,
            Err(e) => return Err(e),
        };
        let docker_container_name = String::from_str(name);
        let ExistingContainer { docker_container_id, status, .. } = from;
        Ok(
            Some(
                ExistingAppContainer {
                    docker_container_id,
                    docker_container_name,
                    app_id: AppId(app_id),
                    app_name,
                    container_id: ContainerId(container_id),
                    container_name,
                    status,
                },
            ),
        )
    }
}

impl App {
    /// Reads a runtime container as a record of this application: `None` when it is
    /// not managed or belongs to another application.
    pub fn decode_container(&self, container: ExistingContainer) -> (r: Result<
        Option<ExistingAppContainer>,
        DecodeError,
    >)
        ensures
            r is Err <==> (is_managed(container) && !labels_readable(container.labels@)),
            r matches Err(e) ==> decode_error_fits(container.labels@, e),
            r matches Ok(Some(e)) ==> is_managed(container) && labels_readable(container.labels@)
                && decodes_as(container, e) && e.app_id == self.id,
            r matches Ok(None) ==> !is_managed(container) || b62_value(
                label_value(container.labels@, APP_ID_LABEL@)->Some_0,
            ) != self.id.0,
    {
        match ExistingAppContainer::decode(container) {
            Err(e) => Err(e),
            Ok(None) => Ok(None),
            Ok(Some(e)) => {
                if e.app_id.0 == self.id.0 {
                    Ok(Some(e))
                } else {
                    Ok(None)
                }
            },
        }
    }
}

} // verus!
