//! The registry from which the store is written out, with the metrics that
//! are registered with it.
//!
//! The registry, the gauges and the encoder are those of the
//! `prometheus_client` crate. What that crate does is not verified here: the
//! functions of this file that call it are private to the crate and state,
//! each in its contract, what is taken on trust.

use vstd::prelude::*;
use std::collections::HashMap;
use prometheus_client::encoding::text::encode;
use prometheus_client::metrics::family::Family;
use prometheus_client::metrics::gauge::Gauge;
use prometheus_client::registry::Registry;
use crate::format::{describes, names, writes, Descriptors, Samples};
use crate::labels::LabelSet;

verus! {

/// `prometheus_client::registry::Registry`, opaque to the verifier.
#[verifier::external_type_specification]
#[verifier::external_body]
pub struct ExRegistry(Registry);

/// The handle of a family of integer gauges addressed by label set: a
/// `prometheus_client::metrics::family::Family` of `Gauge`s keyed by
/// `Vec<(String, String)>`. The verifier sees nothing inside it.
#[verifier::external_body]
#[derive(Debug)]
struct FamilyHandle {
    inner: Family<LabelSet, Gauge>,
}

/// A `prometheus_client::registry::Registry` without prefix or labels of its
/// own, together with the handles of the metrics that are registered with it,
/// each kept under the name it is registered by: families of gauges, and
/// single gauges. No handle leaves it but as a copy given to another
/// registry, which only reads. The verifier sees nothing inside it.
#[verifier::external_body]
#[derive(Debug)]
pub struct Exposition {
    registry: Registry,
    families: HashMap<String, FamilyHandle>,
    gauges: HashMap<String, Gauge>,
}

/// What an exposition holds: the value of each time series of the metrics
/// registered with it.
pub uninterp spec fn exposed(exposition: Exposition) -> Samples;

/// The descriptors of the metrics registered with an exposition, in the
/// order of registration.
pub uninterp spec fn described(exposition: Exposition) -> Descriptors;

/// The `(name, help)` descriptors of the metrics registered with a registry,
/// in the order of registration.
pub uninterp spec fn registered(registry: Registry) -> Seq<(Seq<char>, Seq<char>)>;

/// `Registry::default`: a new registry holds no metric.
#[verifier::external_body]
pub(crate) fn exposition_new() -> (exposition: Exposition)
    ensures
        described(exposition) =~= Seq::empty(),
        exposed(exposition) =~= Map::empty(),
{
    Exposition { registry: Registry::default(), families: HashMap::new(), gauges: HashMap::new() }
}

/// `Family::default`, then `Registry::register` with a copy of the handle:
/// the exposition gains one descriptor at its end, made of the name as given
/// and of the help text with a full stop added, and no time series. The name
/// must be new to the exposition.
#[verifier::external_body]
pub(crate) fn add_family(exposition: &mut Exposition, name: &str, help: &str)
    requires
        !names(described(*old(exposition)), name@),
    ensures
        described(*final(exposition)) == described(*old(exposition)).push(
            (name@, help@.push('.'), true),
        ),
        exposed(*final(exposition)) == exposed(*old(exposition)),
{
    let family = Family::<LabelSet, Gauge>::default();
    exposition.registry.register(name, help, family.clone());
    exposition.families.insert(name.to_string(), FamilyHandle { inner: family });
}

/// `Gauge::default`, then `Registry::register` with a copy of the handle: the
/// exposition gains one descriptor at its end, made of the name as given and
/// of the help text with a full stop added, and the one time series of the
/// gauge, which has no labels and holds zero. The name must be new to the
/// exposition.
#[verifier::external_body]
pub(crate) fn add_gauge(exposition: &mut Exposition, name: &str, help: &str)
    requires
        !names(described(*old(exposition)), name@),
    ensures
        described(*final(exposition)) == described(*old(exposition)).push(
            (name@, help@.push('.'), false),
        ),
        exposed(*final(exposition)) == exposed(*old(exposition)).insert((name@, Seq::empty()), 0),
{
    let gauge = Gauge::default();
    exposition.registry.register(name, help, gauge.clone());
    exposition.gauges.insert(name.to_string(), gauge);
}

/// `Family::get_or_create` followed by `Gauge::set`, on the family registered
/// under `name`: the gauge of `labels`, made if the family had none, holds
/// `value` afterwards, and no other time series changes. The label set is
/// not empty, so that its line is written with braces. The call does not
/// unwind.
#[verifier::external_body]
pub(crate) fn set_series(exposition: &mut Exposition, name: &str, labels: &LabelSet, value: i64)
    requires
        describes(described(*old(exposition)), name@, true),
        labels@.len() > 0,
    ensures
        described(*final(exposition)) == described(*old(exposition)),
        exposed(*final(exposition)) == exposed(*old(exposition)).insert(
            (name@, labels.deep_view()),
            value,
        ),
    no_unwind
{
    exposition.families[name].inner.get_or_create(labels).set(value);
}

/// `Family::get` followed by `Gauge::get`, on the family registered under
/// `name`: the value of the gauge of `labels`, if the family holds one.
#[verifier::external_body]
pub(crate) fn get_series(exposition: &Exposition, name: &str, labels: &LabelSet) -> (value: Option<
    i64,
>)
    requires
        describes(described(*exposition), name@, true),
    ensures
        value == (if exposed(*exposition).dom().contains((name@, labels.deep_view())) {
            Some(exposed(*exposition)[(name@, labels.deep_view())])
        } else {
            None
        }),
{
    match exposition.families[name].inner.get(labels) {
        Some(gauge) => Some(gauge.get()),
        None => None,
    }
}

/// `Gauge::set`, on the gauge registered under `name`: the gauge holds
/// `value` afterwards, and no other time series changes. The call does not
/// unwind.
#[verifier::external_body]
pub(crate) fn set_gauge(exposition: &mut Exposition, name: &str, value: i64)
    requires
        describes(described(*old(exposition)), name@, false),
    ensures
        described(*final(exposition)) == described(*old(exposition)),
        exposed(*final(exposition)) == exposed(*old(exposition)).insert(
            (name@, Seq::empty()),
            value,
        ),
    no_unwind
{
    exposition.gauges[name].set(value);
}

/// `Gauge::get`, on the gauge registered under `name`: the value that the
/// gauge holds.
#[verifier::external_body]
pub(crate) fn get_gauge(exposition: &Exposition, name: &str) -> (value: i64)
    requires
        describes(described(*exposition), name@, false),
    ensures
        value == exposed(*exposition)[(name@, Seq::empty())],
{
    exposition.gauges[name].get()
}

/// `Registry::register`, on another registry, with a copy of the handle of
/// the family that the exposition holds under `name`: that registry gains one
/// descriptor at its end, made of the name as given and of the help text with
/// a full stop added.
#[verifier::external_body]
pub(crate) fn share_family(exposition: &Exposition, name: &str, help: &str, registry: &mut Registry)
    requires
        describes(described(*exposition), name@, true),
    ensures
        registered(*final(registry)) == registered(*old(registry)).push((name@, help@.push('.'))),
{
    registry.register(name, help, exposition.families[name].inner.clone());
}

/// `Registry::register`, on another registry, with a copy of the handle of
/// the gauge that the exposition holds under `name`: that registry gains one
/// descriptor at its end, made of the name as given and of the help text with
/// a full stop added.
#[verifier::external_body]
pub(crate) fn share_gauge(exposition: &Exposition, name: &str, help: &str, registry: &mut Registry)
    requires
        describes(described(*exposition), name@, false),
    ensures
        registered(*final(registry)) == registered(*old(registry)).push((name@, help@.push('.'))),
{
    registry.register(name, help, exposition.gauges[name].clone());
}

/// `prometheus_client::encoding::text::encode`, on the registry of the
/// exposition, into a `String`: whether the encoder reports success, which it
/// always does, since it fails only where the writer refuses a write and a
/// `String` takes every write. It writes, after what the buffer holds, each
/// registered metric that has a time series, in the order of registration:
/// the help line, the type line, and one line for each time series, with the
/// labels and the value as they are; then the end marker. The order of the
/// lines of one family is not fixed.
#[verifier::external_body]
pub(crate) fn encode_into(buffer: &mut String, exposition: &Exposition) -> (done: bool)
    ensures
        done,
        writes(old(buffer)@, final(buffer)@, described(*exposition), exposed(*exposition)),
{
    encode(buffer, &exposition.registry).is_ok()
}

} // verus!
