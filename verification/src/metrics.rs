//! The metrics registry: one gauge per quantity of the catalog, created and
//! registered once, written by overwrite and encoded on demand.

use vstd::prelude::*;
use vstd::utf8::encode_utf8;
use crate::error::AppError;
use crate::exposition::{
    exposition, is_catalog_exposition, is_catalog_sample, is_metric_name, is_plain_help,
    lemma_catalog_describes_gauges, lists_catalog, lists_field, text_before, Sample,
};
use crate::field::{Field, FIELD_COUNT};
use crate::values::{gauge_writes, writes_of, writes_view, GaugeWrite};
use crate::weather::WeatherData;

verus! {

/// `prometheus::Registry`, carried as it is: what it holds is known only
/// through `registered` and `holds_plain_gauges`.
#[verifier::external_type_specification]
#[verifier::external_body]
pub struct ExRegistry(prometheus::Registry);

/// `prometheus::Error`, carried as it is and turned into its wording.
#[verifier::external_type_specification]
#[verifier::external_body]
pub struct ExPrometheusError(prometheus::Error);

/// `prometheus::proto::MetricFamily`, carried from the registry to the
/// encoder: a snapshot of the samples of one name.
#[verifier::external_type_specification]
#[verifier::external_body]
pub struct ExMetricFamily(prometheus::proto::MetricFamily);

/// A handle on one gauge without labels: a `prometheus::Gauge`, of which
/// nothing is known here but the name and the help text that it was created
/// with. The gauge's value lives in a cell that the handle shares with the
/// registry, so a store through the handle shows in the next encoding.
#[verifier::external_body]
#[derive(Debug)]
pub struct GaugeHandle {
    pub gauge: prometheus::Gauge,
}

/// Name and help text of each collector that `registry` holds.
pub uninterp spec fn registered(registry: prometheus::Registry) -> Set<(Seq<char>, Seq<char>)>;

/// Whether `registry` was made without a prefix and without common labels,
/// has never held anything but gauges without labels, and has never had a
/// collector unregistered.
pub uninterp spec fn holds_plain_gauges(registry: prometheus::Registry) -> bool;

/// The identifier of the descriptor of a gauge without labels named `name`:
/// the unseeded hash that `Desc::new` takes of the name.
pub uninterp spec fn descriptor_id(name: Seq<char>) -> u64;

/// The identifiers of the descriptors that `registry` holds.
pub uninterp spec fn held_ids(registry: prometheus::Registry) -> Set<u64>;

/// The wording of a failure of the metrics crate, as its `Display` writes
/// it.
pub uninterp spec fn error_wording(error: prometheus::Error) -> Seq<char>;

/// The name that `gauge` was created with.
pub uninterp spec fn gauge_name(gauge: GaugeHandle) -> Seq<char>;

/// The help text that `gauge` was created with.
pub uninterp spec fn gauge_help(gauge: GaugeHandle) -> Seq<char>;

/// The name of a family of gathered samples.
pub uninterp spec fn family_name(family: prometheus::proto::MetricFamily) -> Seq<char>;

/// The help text of a family of gathered samples.
pub uninterp spec fn family_help(family: prometheus::proto::MetricFamily) -> Seq<char>;

/// The value of the first sample of a family, as the `Display` of a float
/// writes it.
pub uninterp spec fn family_value(family: prometheus::proto::MetricFamily) -> Seq<char>;

/// Whether a family is what a gauge without labels gives: of type gauge,
/// with one sample, which has no labels and no timestamp.
pub uninterp spec fn is_gauge_family(family: prometheus::proto::MetricFamily) -> bool;

/// The wording with which a registry refuses a descriptor whose identifier
/// it holds.
pub const ALREADY_REGISTERED: &'static str = "Duplicate metrics collector registration attempted";

/// Whether `name` and `help` describe a gauge: the name can name a metric
/// and the help text is not empty.
pub open spec fn describes_gauge(name: Seq<char>, help: Seq<char>) -> bool {
    is_metric_name(name) && help.len() > 0
}

/// The wording with which a gauge that `name` and `help` do not describe is
/// refused: the help text is looked at first.
pub open spec fn creation_refusal(name: Seq<char>, help: Seq<char>) -> Seq<char> {
    if help.len() == 0 {
        "Error: empty help string"@
    } else {
        "Error: '"@ + name + "' is not a valid metric name"@
    }
}

/// The wording with which the gauge `name` is refused by a registry of
/// nothing but gauges without labels: that of the creation if `name` and
/// `help` describe no gauge, else that of an identifier already held.
pub open spec fn registration_refusal(name: Seq<char>, help: Seq<char>) -> Seq<char> {
    if describes_gauge(name, help) {
        ALREADY_REGISTERED@
    } else {
        creation_refusal(name, help)
    }
}

/// Whether `registry` holds a collector named `name`.
pub open spec fn holds_name(registry: prometheus::Registry, name: Seq<char>) -> bool {
    exists|help: Seq<char>| registered(registry).contains((name, help))
}

/// Name, help text and value of a family.
pub open spec fn family_sample(family: prometheus::proto::MetricFamily) -> Sample {
    (family_name(family), family_help(family), family_value(family))
}

/// `Registry::new`: a registry that holds no collector and no identifier,
/// made without a prefix and without common labels.
#[verifier::external_body]
fn registry_new() -> (registry: prometheus::Registry)
    ensures
        registered(registry) == Set::<(Seq<char>, Seq<char>)>::empty(),
        held_ids(registry) == Set::<u64>::empty(),
        holds_plain_gauges(registry),
{
    prometheus::Registry::new()
}

/// `Gauge::new`: a gauge without labels that carries `name` and `help`. It
/// is made exactly if `name` can name a metric and `help` is not empty;
/// else the failure is worded as `creation_refusal` says.
#[verifier::external_body]
fn gauge_new(name: &str, help: &str) -> (r: Result<GaugeHandle, prometheus::Error>)
    ensures
        r is Ok <==> describes_gauge(name@, help@),
        r matches Ok(gauge) ==> gauge_name(gauge) == name@ && gauge_help(gauge) == help@,
        r matches Err(e) ==> error_wording(e) == creation_refusal(name@, help@),
{
    match prometheus::Gauge::new(name, help) {
        Ok(gauge) => Ok(GaugeHandle { gauge }),
        Err(e) => Err(e),
    }
}

/// `Registry::register`, with a second handle on the gauge's cell: on
/// success the gauge and the identifier of its descriptor join what the
/// registry holds, on failure that stays as it is. A registry of nothing
/// but gauges without labels refuses the gauge exactly if it holds the
/// identifier already, which it does for every name that it holds; it words
/// the refusal as `ALREADY_REGISTERED`, and is such a registry afterwards.
#[verifier::external_body]
fn registry_register(registry: &mut prometheus::Registry, gauge: &GaugeHandle) -> (r: Result<
    (),
    prometheus::Error,
>)
    ensures
        r is Ok ==> registered(*final(registry)) == registered(*old(registry)).insert(
            (gauge_name(*gauge), gauge_help(*gauge)),
        ) && held_ids(*final(registry)) == held_ids(*old(registry)).insert(
            descriptor_id(gauge_name(*gauge)),
        ),
        r is Err ==> registered(*final(registry)) == registered(*old(registry)) && held_ids(
            *final(registry),
        ) == held_ids(*old(registry)),
        holds_plain_gauges(*old(registry)) ==> (r is Err <==> held_ids(*old(registry)).contains(
            descriptor_id(gauge_name(*gauge)),
        )),
        holds_plain_gauges(*old(registry)) && holds_name(*old(registry), gauge_name(*gauge)) ==> r
            is Err,
        holds_plain_gauges(*old(registry)) ==> (r matches Err(e) ==> error_wording(e)
            == ALREADY_REGISTERED@),
        holds_plain_gauges(*final(registry)) == holds_plain_gauges(*old(registry)),
{
    registry.register(Box::new(gauge.gauge.clone()))
}

/// `Registry::gather`: the samples of every collector, with the values that
/// the gauges hold at the time of the call. A registry of nothing but gauges
/// without labels gathers one gauge family for each collector, under the
/// collector's name and help text, in the order of the names.
#[verifier::external_body]
fn registry_gather(registry: &prometheus::Registry) -> (families: Vec<
    prometheus::proto::MetricFamily,
>)
    ensures
        holds_plain_gauges(*registry) ==> {
            &&& forall|i: int|
                0 <= i < families@.len() ==> is_gauge_family(#[trigger] families@[i])
                    && registered(*registry).contains(
                    (family_name(families@[i]), family_help(families@[i])),
                )
            &&& forall|i: int, j: int|
                0 <= i < j < families@.len() ==> text_before(
                    family_name(#[trigger] families@[i]),
                    family_name(#[trigger] families@[j]),
                )
            &&& forall|name: Seq<char>, help: Seq<char>|
                #[trigger] registered(*registry).contains((name, help)) ==> exists|i: int|
                    0 <= i < families@.len() && family_name(#[trigger] families@[i]) == name
        },
{
    registry.gather()
}

/// `TextEncoder::encode`, for gauge families: writes the families in the
/// text exposition format behind what `buffer` holds. Where every family has
/// a name and a help text that needs no escape, it succeeds, and what it
/// writes is the three lines of each family, one family after the other.
#[verifier::external_body]
fn text_encode(families: &Vec<prometheus::proto::MetricFamily>, buffer: &mut Vec<u8>) -> (r: Result<
    (),
    prometheus::Error,
>)
    requires
        forall|i: int| 0 <= i < families@.len() ==> is_gauge_family(#[trigger] families@[i]),
    ensures
        old(buffer)@.is_prefix_of(final(buffer)@),
        (forall|i: int|
            0 <= i < families@.len() ==> family_name(#[trigger] families@[i]).len() > 0
                && is_plain_help(family_help(families@[i]))) ==> r is Ok && final(buffer)@ == old(
            buffer,
        )@ + encode_utf8(
            exposition(
                families@.map_values(
                    |family: prometheus::proto::MetricFamily|
                        (family_name(family), family_help(family), family_value(family)),
                ),
            ),
        ),
{
    prometheus::Encoder::encode(&prometheus::TextEncoder::new(), families, buffer)
}

/// `Display` of `prometheus::Error`, through `to_string`: the wording of
/// the failure.
#[verifier::external_body]
fn error_text(error: &prometheus::Error) -> (text: String)
    ensures
        text@ == error_wording(*error),
{
    error.to_string()
}

/// `prometheus::Error::Msg`: the failure that is nothing but a message. It
/// is worded as `Error: ` and the message.
#[verifier::external_body]
fn message_error(message: &str) -> (error: prometheus::Error)
    ensures
        error_wording(error) == "Error: "@ + message@,
{
    prometheus::Error::Msg(message.to_string())
}

/// The wording of the failure that is nothing but `message`: `Error: ` and
/// the message.
pub fn message_wording(message: &str) -> (text: String)
    ensures
        text@ == "Error: "@ + message@,
{
    error_text(&message_error(message))
}

/// A registry that holds nothing, made without a prefix and without common
/// labels.
pub fn new_registry() -> (registry: prometheus::Registry)
    ensures
        registered(registry) == Set::<(Seq<char>, Seq<char>)>::empty(),
        held_ids(registry) == Set::<u64>::empty(),
        holds_plain_gauges(registry),
{
    registry_new()
}

/// The failure to create or register the gauge `name`, caused by `error`:
/// it carries the name and the wording of the cause.
pub fn registration_error(name: &'static str, error: &prometheus::Error) -> (e: AppError)
    ensures
        e matches AppError::MetricRegistrationError { name: n, cause } && n@ == name@ && cause@
            == error_wording(*error),
{
    AppError::MetricRegistrationError { name, cause: error_text(error) }
}

/// Creates the gauge `name` and registers it: on success the registry holds
/// one gauge more, under `name` and `help`, and what it held before. In a
/// registry of nothing but gauges without labels this succeeds exactly if
/// `name` and `help` describe a gauge and the registry does not hold the
/// identifier of `name` yet, which it does for every name that it holds.
/// Every failure is `MetricRegistrationError` with `name` and leaves the
/// registry as it was; its cause is worded as `registration_refusal` says.
pub fn register_gauge(registry: &mut prometheus::Registry, name: &'static str, help: &str) -> (r:
    Result<GaugeHandle, AppError>)
    ensures
        match r {
            Ok(gauge) => {
                &&& gauge_name(gauge) == name@
                &&& gauge_help(gauge) == help@
                &&& registered(*final(registry)) == registered(*old(registry)).insert(
                    (name@, help@),
                )
                &&& held_ids(*final(registry)) == held_ids(*old(registry)).insert(
                    descriptor_id(name@),
                )
            },
            Err(e) => {
                &&& e matches AppError::MetricRegistrationError { name: n, cause }
                &&& n@ == name@
                &&& !describes_gauge(name@, help@) || holds_plain_gauges(*old(registry))
                    ==> cause@ == registration_refusal(name@, help@)
                &&& registered(*final(registry)) == registered(*old(registry))
                &&& held_ids(*final(registry)) == held_ids(*old(registry))
            },
        },
        holds_plain_gauges(*old(registry)) ==> (r is Ok <==> (describes_gauge(name@, help@)
            && !held_ids(*old(registry)).contains(descriptor_id(name@)))),
        holds_plain_gauges(*old(registry)) && holds_name(*old(registry), name@) ==> r is Err,
        !describes_gauge(name@, help@) ==> r is Err,
        holds_plain_gauges(*final(registry)) == holds_plain_gauges(*old(registry)),
{
    match gauge_new(name, help) {
        Ok(gauge) => match registry_register(registry, &gauge) {
            Ok(()) => Ok(gauge),
            Err(e) => Err(registration_error(name, &e)),
        },
        Err(e) => Err(registration_error(name, &e)),
    }
}

/// The identifiers of the first `count` gauges of the catalog.
pub open spec fn catalog_ids(count: int) -> Set<u64> {
    Set::new(
        |id: u64|
            exists|i: int|
                0 <= i < count && id == #[trigger] descriptor_id(Field::spec_at(i).spec_name()),
    )
}

/// Whether the gauge at position `i` of the catalog has the identifier of
/// one before it.
pub open spec fn collides(i: int) -> bool {
    exists|j: int|
        0 <= j < i && #[trigger] descriptor_id(Field::spec_at(j).spec_name()) == descriptor_id(
            Field::spec_at(i).spec_name(),
        )
}

/// Whether no two gauges of the catalog have the same identifier.
pub open spec fn catalog_ids_differ() -> bool {
    forall|a: int, b: int|
        0 <= a < b < FIELD_COUNT ==> #[trigger] descriptor_id(Field::spec_at(a).spec_name())
            != #[trigger] descriptor_id(Field::spec_at(b).spec_name())
}

/// Whether `e` reports the first gauge of the catalog that has the
/// identifier of one before it, as the registry words it.
pub open spec fn reports_first_collision(e: AppError) -> bool {
    exists|i: int|
        {
            &&& 0 <= i < FIELD_COUNT
            &&& #[trigger] collides(i)
            &&& forall|k: int| 0 <= k < i ==> !#[trigger] collides(k)
            &&& e matches AppError::MetricRegistrationError { name, cause }
            &&& name@ == Field::spec_at(i).spec_name()
            &&& cause@ == ALREADY_REGISTERED@
        }
}

/// Name and help text of the first `count` gauges of the catalog.
pub open spec fn catalog_entries(count: int) -> Set<(Seq<char>, Seq<char>)> {
    Set::new(
        |entry: (Seq<char>, Seq<char>)|
            exists|i: int|
                0 <= i < count && entry == (
                    #[trigger] Field::spec_at(i).spec_name(),
                    Field::spec_at(i).spec_help(),
                ),
    )
}

/// Name, help text and value of each family.
pub open spec fn samples_of(families: Seq<prometheus::proto::MetricFamily>) -> Seq<Sample> {
    families.map_values(|family: prometheus::proto::MetricFamily| family_sample(family))
}

/// Families gathered from a registry that holds the catalog list the
/// catalog, and each has a name and a help text that needs no escape.
proof fn lemma_gathered_catalog(
    entries: Set<(Seq<char>, Seq<char>)>,
    families: Seq<prometheus::proto::MetricFamily>,
)
    requires
        entries == catalog_entries(FIELD_COUNT as int),
        forall|i: int|
            0 <= i < families.len() ==> entries.contains(
                (family_name(#[trigger] families[i]), family_help(families[i])),
            ),
        forall|i: int, j: int|
            0 <= i < j < families.len() ==> text_before(
                family_name(#[trigger] families[i]),
                family_name(#[trigger] families[j]),
            ),
        forall|name: Seq<char>, help: Seq<char>| #[trigger]
            entries.contains((name, help)) ==> exists|i: int|
                0 <= i < families.len() && family_name(#[trigger] families[i]) == name,
    ensures
        lists_catalog(samples_of(families)),
        forall|i: int|
            0 <= i < families.len() ==> family_name(#[trigger] families[i]).len() > 0
                && is_plain_help(family_help(families[i])),
{
    let samples = samples_of(families);
    assert forall|i: int| 0 <= i < families.len() implies family_name(#[trigger] families[i]).len()
        > 0 && is_plain_help(family_help(families[i])) && is_catalog_sample(samples[i]) by {
        let entry = (family_name(families[i]), family_help(families[i]));
        assert(entries.contains(entry));
        let k = choose|k: int|
            0 <= k < FIELD_COUNT && entry == (
                #[trigger] Field::spec_at(k).spec_name(),
                Field::spec_at(k).spec_help(),
            );
        let field = Field::spec_at(k);
        lemma_catalog_describes_gauges(field);
        assert(samples[i].0 == field.spec_name() && samples[i].1 == field.spec_help());
    }
    assert forall|i: int| 0 <= i < samples.len() implies is_catalog_sample(
        #[trigger] samples[i],
    ) by {
        assert(family_name(families[i]).len() > 0);
    }
    assert forall|field: Field| #[trigger] lists_field(samples, field) by {
        field.lemma_index_at();
        let entry = (field.spec_name(), field.spec_help());
        assert(entry == (
            Field::spec_at(field.spec_index()).spec_name(),
            Field::spec_at(field.spec_index()).spec_help(),
        ));
        assert(entries.contains(entry));
        let i = choose|i: int|
            0 <= i < families.len() && family_name(#[trigger] families[i]) == field.spec_name();
        assert(samples[i].0 == field.spec_name());
    }
    assert forall|i: int, j: int| 0 <= i < j < samples.len() implies text_before(
        (#[trigger] samples[i]).0,
        (#[trigger] samples[j]).0,
    ) by {
        assert(samples[i].0 == family_name(families[i]));
        assert(samples[j].0 == family_name(families[j]));
    }
}

/// The catalog up to one more gauge is the catalog up to that gauge, and
/// the gauge.
proof fn lemma_catalog_grows(i: int)
    requires
        0 <= i < FIELD_COUNT,
    ensures
        catalog_entries(i + 1) == catalog_entries(i).insert(
            (Field::spec_at(i).spec_name(), Field::spec_at(i).spec_help()),
        ),
        catalog_ids(i + 1) == catalog_ids(i).insert(descriptor_id(Field::spec_at(i).spec_name())),
{
    let entry = (Field::spec_at(i).spec_name(), Field::spec_at(i).spec_help());
    assert forall|e: (Seq<char>, Seq<char>)|
        catalog_entries(i + 1).contains(e) <==> catalog_entries(i).insert(entry).contains(e) by {
        if catalog_entries(i + 1).contains(e) {
            let k = choose|k: int|
                0 <= k < i + 1 && e == (
                    #[trigger] Field::spec_at(k).spec_name(),
                    Field::spec_at(k).spec_help(),
                );
            if k < i {
                assert(catalog_entries(i).contains(e));
            }
        }
        if catalog_entries(i).contains(e) {
            let k = choose|k: int|
                0 <= k < i && e == (
                    #[trigger] Field::spec_at(k).spec_name(),
                    Field::spec_at(k).spec_help(),
                );
            assert(0 <= k < i + 1);
        }
        if e == entry {
            assert(e == (Field::spec_at(i).spec_name(), Field::spec_at(i).spec_help()));
        }
    }
    assert(catalog_entries(i + 1) =~= catalog_entries(i).insert(entry));
    let own = descriptor_id(Field::spec_at(i).spec_name());
    assert forall|id: u64| catalog_ids(i + 1).contains(id) <==> catalog_ids(i).insert(
        own,
    ).contains(id) by {
        if catalog_ids(i + 1).contains(id) {
            let k = choose|k: int|
                0 <= k < i + 1 && id == #[trigger] descriptor_id(Field::spec_at(k).spec_name());
            if k < i {
                assert(catalog_ids(i).contains(id));
            }
        }
        if catalog_ids(i).contains(id) {
            let k = choose|k: int|
                0 <= k < i && id == #[trigger] descriptor_id(Field::spec_at(k).spec_name());
            assert(0 <= k < i + 1);
        }
        if id == own {
            assert(id == descriptor_id(Field::spec_at(i).spec_name()));
        }
    }
    assert(catalog_ids(i + 1) =~= catalog_ids(i).insert(own));
}

/// A gauge has the identifier of one before it exactly if the identifiers
/// of the gauges before it hold its own.
proof fn lemma_collides_is_held(i: int)
    ensures
        collides(i) <==> catalog_ids(i).contains(descriptor_id(Field::spec_at(i).spec_name())),
{
    let own = descriptor_id(Field::spec_at(i).spec_name());
    if collides(i) {
        let j = choose|j: int|
            0 <= j < i && #[trigger] descriptor_id(Field::spec_at(j).spec_name()) == own;
        assert(own == descriptor_id(Field::spec_at(j).spec_name()));
    }
    if catalog_ids(i).contains(own) {
        let j = choose|j: int|
            0 <= j < i && own == #[trigger] descriptor_id(Field::spec_at(j).spec_name());
        assert(descriptor_id(Field::spec_at(j).spec_name()) == own);
    }
}

/// Where a gauge has the identifier of one before it, two gauges of the
/// catalog have the same identifier.
proof fn lemma_collision_is_no_difference(i: int)
    requires
        0 <= i < FIELD_COUNT,
        collides(i),
    ensures
        !catalog_ids_differ(),
{
    let j = choose|j: int|
        0 <= j < i && #[trigger] descriptor_id(Field::spec_at(j).spec_name()) == descriptor_id(
            Field::spec_at(i).spec_name(),
        );
    assert(0 <= j < i < FIELD_COUNT);
}

/// Where no gauge has the identifier of one before it, no two gauges of the
/// catalog have the same identifier.
proof fn lemma_no_collision_is_difference()
    requires
        forall|k: int| 0 <= k < FIELD_COUNT ==> !#[trigger] collides(k),
    ensures
        catalog_ids_differ(),
{
    assert forall|a: int, b: int| 0 <= a < b < FIELD_COUNT implies #[trigger] descriptor_id(
        Field::spec_at(a).spec_name(),
    ) != #[trigger] descriptor_id(Field::spec_at(b).spec_name()) by {
        assert(!collides(b));
    }
}

/// All gauges of the catalog with the registry that they are registered
/// with.
#[derive(Debug)]
pub struct Metrics {
    registry: prometheus::Registry,
    gauges: Vec<GaugeHandle>,
}

impl Metrics {
    #[verifier::type_invariant]
    spec fn complete(self) -> bool {
        &&& self.gauges@.len() == FIELD_COUNT
        &&& forall|i: int|
            0 <= i < FIELD_COUNT ==> gauge_name(#[trigger] self.gauges@[i]) == Field::spec_at(
                i,
            ).spec_name()
        &&& registered(self.registry) == catalog_entries(FIELD_COUNT as int)
        &&& held_ids(self.registry) == catalog_ids(FIELD_COUNT as int)
        &&& holds_plain_gauges(self.registry)
    }

    /// Name and help text of what is registered.
    pub closed spec fn entries(self) -> Set<(Seq<char>, Seq<char>)> {
        registered(self.registry)
    }

    /// The handle held for `field`.
    pub closed spec fn handle(self, field: Field) -> GaugeHandle {
        self.gauges@[field.spec_index()]
    }

    /// Creates and registers the gauges of the catalog, in catalog order,
    /// with a registry of its own. This succeeds exactly if no two gauges of
    /// the catalog have the same identifier. Else the first gauge that has
    /// the identifier of one before it ends the construction, with its name
    /// and the registry's wording.
    pub fn new() -> (r: Result<Metrics, AppError>)
        ensures
            r is Ok <==> catalog_ids_differ(),
            match r {
                Ok(metrics) => {
                    &&& metrics.entries() == catalog_entries(FIELD_COUNT as int)
                    &&& forall|field: Field|
                        gauge_name(#[trigger] metrics.handle(field)) == field.spec_name()
                },
                Err(e) => reports_first_collision(e),
            },
    {
        let mut registry = registry_new();
        let mut gauges: Vec<GaugeHandle> = Vec::new();
        let mut i: usize = 0;
        proof {
            assert(catalog_entries(0) =~= Set::<(Seq<char>, Seq<char>)>::empty());
            assert(catalog_ids(0) =~= Set::<u64>::empty());
        }
        while i < FIELD_COUNT
            invariant
                0 <= i <= FIELD_COUNT,
                gauges@.len() == i,
                forall|j: int|
                    0 <= j < i ==> gauge_name(#[trigger] gauges@[j]) == Field::spec_at(
                        j,
                    ).spec_name(),
                registered(registry) == catalog_entries(i as int),
                held_ids(registry) == catalog_ids(i as int),
                forall|k: int| 0 <= k < i ==> !#[trigger] collides(k),
                holds_plain_gauges(registry),
            decreases FIELD_COUNT - i,
        {
            let field = Field::nth(i);
            proof {
                lemma_catalog_describes_gauges(field);
                lemma_collides_is_held(i as int);
            }
            match register_gauge(&mut registry, field.name(), field.help()) {
                Ok(gauge) => {
                    gauges.push(gauge);
                },
                Err(e) => {
                    proof {
                        assert(collides(i as int));
                        lemma_collision_is_no_difference(i as int);
                    }
                    return Err(e);
                },
            }
            proof {
                lemma_catalog_grows(i as int);
            }
            i += 1;
        }
        let metrics = Metrics { registry, gauges };
        proof {
            assert forall|field: Field|
                gauge_name(#[trigger] metrics.handle(field)) == field.spec_name() by {
                field.lemma_index_at();
            }
            lemma_no_collision_is_difference();
        }
        Ok(metrics)
    }

    /// The handle on the gauge of `field`.
    pub fn gauge(&self, field: Field) -> (gauge: &GaugeHandle)
        ensures
            *gauge == self.handle(field),
            gauge_name(*gauge) == field.spec_name(),
    {
        proof {
            use_type_invariant(self);
            field.lemma_index_at();
        }
        &self.gauges[field.index()]
    }

    /// The overwrites that `data` asks of the gauges: for each quantity that
    /// is present, in catalog order, its gauge and the value rounded to the
    /// gauge's precision. A quantity that is absent asks for none. Whoever
    /// holds the handles performs them; each is one store into one gauge's
    /// cell.
    pub fn update(&self, data: &WeatherData) -> (writes: Vec<GaugeWrite>)
        ensures
            writes_view(writes@) == writes_of(*data, FIELD_COUNT as int),
    {
        gauge_writes(data)
    }

    /// The gauges in the text exposition format: for every gauge of the
    /// catalog, in the order of the names, a line with its help text, a line
    /// that marks it as a gauge, and a line with the value that it holds at
    /// the time of the call. This never fails.
    pub fn encode(&self) -> (r: Result<Vec<u8>, AppError>)
        ensures
            r matches Ok(bytes) && is_catalog_exposition(bytes@),
    {
        proof {
            use_type_invariant(self);
        }
        let families = registry_gather(&self.registry);
        let mut buffer: Vec<u8> = Vec::with_capacity(8192);
        proof {
            lemma_gathered_catalog(registered(self.registry), families@);
        }
        match text_encode(&families, &mut buffer) {
            Ok(()) => {
                proof {
                    assert(samples_of(families@) =~= families@.map_values(
                        |family: prometheus::proto::MetricFamily|
                            (family_name(family), family_help(family), family_value(family)),
                    ));
                    assert(buffer@ =~= encode_utf8(exposition(samples_of(families@))));
                }
                Ok(buffer)
            },
            Err(e) => Err(AppError::MetricsEncodeError(error_text(&e))),
        }
    }
}

} // verus!
