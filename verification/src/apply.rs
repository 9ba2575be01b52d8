//! Metadata stamping shared by every kind, and the decision to apply an object.

use vstd::prelude::*;
use vstd::string::*;

use crate::config::{Config, ConfigView};
use crate::kubernetes::{ObjectMeta, ObjectMetaView};
use crate::strmap;
use crate::strmap::{lemma_deep_insert, StrMap};

verus! {

pub type Labels = Map<Seq<char>, Seq<char>>;

/// The labels of every object the controller writes. The instance label wins where
/// both have one key.
pub open spec fn labels_of(cfg: ConfigView) -> Labels {
    Map::<Seq<char>, Seq<char>>::empty().insert(
        cfg.managed_label_key,
        cfg.managed_label_value,
    ).insert(cfg.instance_label_key, cfg.instance_label_value)
}

/// The managed annotation and the extra ones, which win where they have the same key.
pub open spec fn annotations_of(cfg: ConfigView, extra: Labels) -> Labels {
    Map::<Seq<char>, Seq<char>>::empty().insert(
        cfg.managed_annotation_key,
        cfg.managed_annotation_value,
    ).union_prefer_right(extra)
}

pub open spec fn metadata_with(
    cfg: ConfigView,
    name: Seq<char>,
    labels: Labels,
    extra: Labels,
) -> ObjectMetaView {
    ObjectMetaView {
        name: Some(name),
        namespace: Some(cfg.namespace),
        labels: Some(labels),
        annotations: Some(annotations_of(cfg, extra)),
    }
}

/// Metadata with the controller's labels and no extra annotations.
pub open spec fn metadata(cfg: ConfigView, name: Seq<char>) -> ObjectMetaView {
    metadata_with(cfg, name, labels_of(cfg), Map::empty())
}

/// Labels applied to every Kubernetes object the controller writes.
pub fn owner_labels(cfg: &Config, _name: &str) -> (r: StrMap<String>)
    ensures
        r.deep_view() == labels_of(cfg.deep_view()),
{
    broadcast use lemma_deep_insert;

    let mut labels: StrMap<String> = StrMap::new();
    assert(labels.deep_view() =~= Map::<Seq<char>, Seq<char>>::empty());
    labels.insert(cfg.managed_label_key.clone(), cfg.managed_label_value.clone());
    labels.insert(cfg.instance_label_key.clone(), cfg.instance_label_value.clone());
    labels
}

/// `ObjectMeta` populated with the given labels and the managed annotation, plus any
/// caller-supplied extras. User-supplied entries win over the managed one only if they
/// target the same key, which lets operators relabel things if needed.
pub fn managed_metadata_with(
    cfg: &Config,
    name: &str,
    labels: StrMap<String>,
    extra_annotations: &StrMap<String>,
) -> (r: ObjectMeta)
    ensures
        r.deep_view() == metadata_with(
            cfg.deep_view(),
            name@,
            labels.deep_view(),
            extra_annotations.deep_view(),
        ),
{
    broadcast use lemma_deep_insert;

    let mut annotations: StrMap<String> = StrMap::new();
    assert(annotations.deep_view() =~= Map::<Seq<char>, Seq<char>>::empty());
    annotations.insert(cfg.managed_annotation_key.clone(), cfg.managed_annotation_value.clone());
    strmap::add_all(&mut annotations, extra_annotations);
    ObjectMeta {
        name: Some(name.to_owned()),
        namespace: Some(cfg.namespace.clone()),
        labels: Some(labels),
        annotations: Some(annotations),
    }
}

/// `ObjectMeta` populated with the given labels and only the managed annotation.
pub fn managed_metadata(cfg: &Config, name: &str, labels: StrMap<String>) -> (r: ObjectMeta)
    ensures
        r.deep_view() == metadata_with(cfg.deep_view(), name@, labels.deep_view(), Map::empty()),
{
    let none: StrMap<String> = StrMap::new();
    assert(none.deep_view() =~= Map::<Seq<char>, Seq<char>>::empty());
    managed_metadata_with(cfg, name, labels, &none)
}

/// What applying an object comes to.
#[derive(Debug, Clone, Copy, PartialEq, Eq, Structural)]
pub enum ApplyAction {
    /// The object has no name; this is an error.
    Nameless,
    /// Read-only mode: nothing is written.
    Skip,
    /// A forced server-side apply under the object's name.
    Apply,
}

pub open spec fn apply_action_of(metadata: ObjectMetaView, read_only: bool) -> ApplyAction {
    if metadata.name is None {
        ApplyAction::Nameless
    } else if read_only {
        ApplyAction::Skip
    } else {
        ApplyAction::Apply
    }
}

/// Whether an object is applied.
pub fn apply_action(cfg: &Config, metadata: &ObjectMeta) -> (r: ApplyAction)
    ensures
        r == apply_action_of(metadata.deep_view(), cfg.read_only),
{
    if metadata.name.is_none() {
        ApplyAction::Nameless
    } else if cfg.read_only {
        ApplyAction::Skip
    } else {
        ApplyAction::Apply
    }
}

} // verus!
