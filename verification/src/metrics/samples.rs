//! What the metrics show after any number of samples.

use vstd::prelude::*;

use crate::exposition::Labels;
use crate::metrics::{
    device_info_labels, device_labels, gauge_count, initial, sample_readings, MetricsView,
    ReadingValue, ReadingView, Series,
};
use crate::sample::Sample;
use crate::text::{decimal, lemma_number_of_decimal};

verus! {

/// The metrics after some samples were received, one after the other.
pub open spec fn sampled_all(view: MetricsView, samples: Seq<Sample>) -> MetricsView
    decreases samples.len(),
{
    if samples.len() == 0 {
        view
    } else {
        sampled_all(view, samples.drop_last()).sampled(samples.last())
    }
}

/// Whether a sample of a device is among some samples.
pub open spec fn has_serial(samples: Seq<Sample>, serial: u64) -> bool {
    exists|i: int| 0 <= i < samples.len() && (#[trigger] samples[i]).serial == serial
}

/// The serials of some samples, each once, in the order of their first samples.
pub open spec fn first_seen(samples: Seq<Sample>) -> Seq<u64>
    decreases samples.len(),
{
    if samples.len() == 0 {
        Seq::empty()
    } else {
        let earlier = first_seen(samples.drop_last());
        if earlier.contains(samples.last().serial) {
            earlier
        } else {
            earlier.push(samples.last().serial)
        }
    }
}

/// How many samples of a device are among some samples.
pub open spec fn count_of(samples: Seq<Sample>, serial: u64) -> nat
    decreases samples.len(),
{
    if samples.len() == 0 {
        0
    } else {
        count_of(samples.drop_last(), serial) + if samples.last().serial == serial {
            1nat
        } else {
            0nat
        }
    }
}

/// How many samples of some devices are among some samples, in total.
pub open spec fn count_of_all(samples: Seq<Sample>, serials: Seq<u64>) -> nat
    decreases serials.len(),
{
    if serials.len() == 0 {
        0
    } else {
        count_of_all(samples, serials.drop_last()) + count_of(samples, serials.last())
    }
}

/// The last sample of a device among some samples that have one.
pub open spec fn last_of(samples: Seq<Sample>, serial: u64) -> Sample
    recommends
        has_serial(samples, serial),
    decreases samples.len(),
{
    if samples.len() <= 1 || samples.last().serial == serial {
        samples.last()
    } else {
        last_of(samples.drop_last(), serial)
    }
}

/// What the last of some readings says of a label set of a metric, if one does.
pub open spec fn latest(readings: Seq<ReadingView>, series: Series, labels: Labels) -> Option<
    ReadingValue,
>
    decreases readings.len(),
{
    if readings.len() == 0 {
        None
    } else if readings.last().series == series && readings.last().labels == labels {
        Some(readings.last().value)
    } else {
        latest(readings.drop_last(), series, labels)
    }
}

/// A 64-bit counter after `total` more than zero.
pub open spec fn wrapped(total: nat) -> u64 {
    (total % 0x1_0000_0000_0000_0000) as u64
}

proof fn lemma_device_labels_differ(a: u64, b: u64)
    requires
        a != b,
    ensures
        device_labels(a) != device_labels(b),
{
    lemma_number_of_decimal(a as nat);
    lemma_number_of_decimal(b as nat);
    assert(device_labels(a)[0].1 == decimal(a as nat));
    assert(device_labels(b)[0].1 == decimal(b as nat));
}

proof fn lemma_identities_differ(a: Sample, b: Sample)
    requires
        a.serial != b.serial,
    ensures
        device_info_labels(a) != device_info_labels(b),
{
    lemma_number_of_decimal(a.serial as nat);
    lemma_number_of_decimal(b.serial as nat);
    assert(device_info_labels(a)[0].1 == decimal(a.serial as nat));
    assert(device_info_labels(b)[0].1 == decimal(b.serial as nat));
}

proof fn lemma_first_seen(samples: Seq<Sample>)
    ensures
        first_seen(samples).no_duplicates(),
        forall|serial: u64| #[trigger]
            first_seen(samples).contains(serial) <==> has_serial(samples, serial),
    decreases samples.len(),
{
    if samples.len() > 0 {
        let front = samples.drop_last();
        let earlier = first_seen(front);
        lemma_first_seen(front);
        assert forall|serial: u64| #[trigger]
            first_seen(samples).contains(serial) <==> has_serial(samples, serial) by {
            assert(samples[samples.len() - 1] == samples.last());
            if has_serial(front, serial) {
                let i = choose|i: int|
                    0 <= i < front.len() && (#[trigger] front[i]).serial == serial;
                assert(samples[i].serial == serial);
            }
            if has_serial(samples, serial) && serial != samples.last().serial {
                let i = choose|i: int|
                    0 <= i < samples.len() && (#[trigger] samples[i]).serial == serial;
                assert(front[i].serial == serial);
            }
            assert(earlier.contains(serial) <==> has_serial(front, serial));
            let pushed = earlier.push(samples.last().serial);
            assert(pushed[earlier.len() as int] == samples.last().serial);
            if earlier.contains(serial) {
                let i = choose|i: int| 0 <= i < earlier.len() && earlier[i] == serial;
                assert(pushed[i] == serial);
            }
            if pushed.contains(serial) && serial != samples.last().serial {
                let i = choose|i: int| 0 <= i < pushed.len() && pushed[i] == serial;
                assert(earlier[i] == serial);
            }
        }
    }
}

proof fn lemma_count_all_after(samples: Seq<Sample>, serials: Seq<u64>)
    requires
        samples.len() > 0,
        serials.no_duplicates(),
    ensures
        count_of_all(samples, serials) == count_of_all(samples.drop_last(), serials) + (
        if serials.contains(samples.last().serial) {
            1nat
        } else {
            0nat
        }),
    decreases serials.len(),
{
    if serials.len() > 0 {
        let front = serials.drop_last();
        let serial = samples.last().serial;
        lemma_count_all_after(samples, front);
        if serials.contains(serial) && serials.last() != serial {
            let i = choose|i: int| 0 <= i < serials.len() && serials[i] == serial;
            assert(front[i] == serial);
        }
        if front.contains(serial) {
            let i = choose|i: int| 0 <= i < front.len() && front[i] == serial;
            assert(serials[i] == serial);
            assert(serials[serials.len() - 1] != serial);
        }
        if serials.last() == serial {
            assert(serials[serials.len() - 1] == serial);
        }
    }
}

proof fn lemma_count_of_absent(samples: Seq<Sample>, serial: u64)
    requires
        !first_seen(samples).contains(serial),
    ensures
        count_of(samples, serial) == 0,
    decreases samples.len(),
{
    if samples.len() > 0 {
        lemma_first_seen(samples);
        lemma_first_seen(samples.drop_last());
        assert(samples[samples.len() - 1] == samples.last());
        assert(!has_serial(samples, serial));
        if first_seen(samples.drop_last()).contains(serial) {
            let i = choose|i: int|
                0 <= i < samples.drop_last().len() && (#[trigger] samples.drop_last()[i]).serial
                    == serial;
            assert(samples[i].serial == serial);
        }
        lemma_count_of_absent(samples.drop_last(), serial);
    }
}

/// Every sample is one of exactly one device.
proof fn lemma_counts_add_up(samples: Seq<Sample>)
    ensures
        count_of_all(samples, first_seen(samples)) == samples.len(),
    decreases samples.len(),
{
    if samples.len() > 0 {
        let front = samples.drop_last();
        let earlier = first_seen(front);
        let serial = samples.last().serial;
        lemma_counts_add_up(front);
        lemma_first_seen(front);
        lemma_count_all_after(samples, earlier);
        if !earlier.contains(serial) {
            lemma_count_of_absent(front, serial);
            assert(earlier.push(serial).drop_last() =~= earlier);
        }
    }
}

proof fn lemma_received(version: Seq<char>, samples: Seq<Sample>)
    ensures
        sampled_all(initial(version), samples).observations_received == wrapped(samples.len()),
    decreases samples.len(),
{
    if samples.len() > 0 {
        lemma_received(version, samples.drop_last());
    }
}

proof fn lemma_devices(version: Seq<char>, samples: Seq<Sample>)
    ensures
        sampled_all(initial(version), samples).devices.dom() == first_seen(samples).to_set(),
        sampled_all(initial(version), samples).devices_seen == gauge_count(
            first_seen(samples).len() as int,
        ),
        forall|serial: u64| #[trigger]
            first_seen(samples).contains(serial) ==> sampled_all(
                initial(version),
                samples,
            ).devices[serial] == device_info_labels(last_of(samples, serial)),
    decreases samples.len(),
{
    if samples.len() == 0 {
        assert(first_seen(samples).to_set() =~= Set::empty());
    } else {
        let front = samples.drop_last();
        let earlier = first_seen(front);
        let serial = samples.last().serial;
        let before = sampled_all(initial(version), front);
        let after = sampled_all(initial(version), samples);
        lemma_devices(version, front);
        lemma_first_seen(front);
        lemma_first_seen(samples);
        assert(earlier.contains(serial) <==> earlier.to_set().contains(serial));
        assert forall|other: u64| #[trigger]
            first_seen(samples).contains(other) implies after.devices[other]
            == device_info_labels(last_of(samples, other)) by {
            if other != serial {
                assert(has_serial(samples, other));
                let i = choose|i: int|
                    0 <= i < samples.len() && (#[trigger] samples[i]).serial == other;
                assert(front[i].serial == other);
                assert(earlier.contains(other));
            }
        }
        if earlier.contains(serial) {
            assert(earlier.to_set().insert(serial) =~= earlier.to_set());
        } else {
            let pushed = earlier.push(serial);
            assert(pushed.to_set() =~= earlier.to_set().insert(serial)) by {
                assert(pushed[earlier.len() as int] == serial);
                assert forall|other: u64| earlier.to_set().insert(serial).contains(
                    other,
                ) implies pushed.to_set().contains(other) by {
                    if other != serial {
                        let i = choose|i: int| 0 <= i < earlier.len() && earlier[i] == other;
                        assert(pushed[i] == other);
                    }
                }
                assert forall|other: u64| pushed.to_set().contains(other) implies earlier.to_set()
                    .insert(serial).contains(other) by {
                    let i = choose|i: int| 0 <= i < pushed.len() && pushed[i] == other;
                    if i < earlier.len() {
                        assert(earlier[i] == other);
                        assert(earlier.to_set().contains(other));
                    }
                }
            }
            pushed.unique_seq_to_set();
        }
    }
}

/// Whether the counts by device are those of some samples.
spec fn counts_fit(counts: Map<Labels, u64>, samples: Seq<Sample>) -> bool {
    &&& forall|serial: u64| #[trigger]
        counts.contains_key(device_labels(serial)) <==> first_seen(samples).contains(serial)
    &&& forall|serial: u64| #[trigger]
        first_seen(samples).contains(serial) ==> counts[device_labels(serial)] == wrapped(
            count_of(samples, serial),
        )
    &&& forall|labels: Labels| #[trigger]
        counts.contains_key(labels) ==> exists|serial: u64| labels == #[trigger] device_labels(
            serial,
        )
}

proof fn lemma_counts(version: Seq<char>, samples: Seq<Sample>)
    ensures
        counts_fit(
            sampled_all(initial(version), samples).device_observations_received,
            samples,
        ),
    decreases samples.len(),
{
    if samples.len() > 0 {
        let front = samples.drop_last();
        let earlier = first_seen(front);
        let serial = samples.last().serial;
        let before = sampled_all(initial(version), front).device_observations_received;
        let after = sampled_all(initial(version), samples).device_observations_received;
        lemma_counts(version, front);
        if !earlier.contains(serial) {
            lemma_count_of_absent(front, serial);
        }
        assert(first_seen(samples).contains(serial)) by {
            if !earlier.contains(serial) {
                assert(earlier.push(serial)[earlier.len() as int] == serial);
            }
        }
        assert(before.contains_key(device_labels(serial)) <==> earlier.contains(serial));
        assert forall|other: u64| other != serial implies #[trigger] first_seen(samples).contains(
            other,
        ) == earlier.contains(other) && after.contains_key(device_labels(other))
            == before.contains_key(device_labels(other)) && after[device_labels(other)]
            == before[device_labels(other)] by {
            lemma_device_labels_differ(serial, other);
            let pushed = earlier.push(serial);
            if earlier.contains(other) {
                let i = choose|i: int| 0 <= i < earlier.len() && earlier[i] == other;
                assert(pushed[i] == other);
            }
            if pushed.contains(other) {
                let i = choose|i: int| 0 <= i < pushed.len() && pushed[i] == other;
                assert(earlier[i] == other);
            }
        }
        assert forall|other: u64| #[trigger]
            after.contains_key(device_labels(other)) <==> first_seen(samples).contains(other) by {
            if other != serial {
                assert(first_seen(samples).contains(other) == earlier.contains(other));
                assert(before.contains_key(device_labels(other)) <==> earlier.contains(other));
            }
        }
        assert forall|other: u64| #[trigger]
            first_seen(samples).contains(other) implies after[device_labels(other)] == wrapped(
            count_of(samples, other),
        ) by {
            if other != serial {
                assert(earlier.contains(other));
            }
        }
        assert forall|labels: Labels| #[trigger]
            after.contains_key(labels) implies exists|other: u64|
            labels == #[trigger] device_labels(other) by {
            if labels != device_labels(serial) {
                assert(before.contains_key(labels));
            }
        }
    }
}

/// Whether the device information is that of the last sample of each device.
spec fn info_fits(info: Map<Labels, i64>, samples: Seq<Sample>) -> bool {
    &&& forall|serial: u64| #[trigger]
        first_seen(samples).contains(serial) ==> {
            let labels = device_info_labels(last_of(samples, serial));
            info.contains_key(labels) && info[labels] == 1
        }
    &&& forall|labels: Labels| #[trigger]
        info.contains_key(labels) ==> exists|serial: u64| #[trigger]
            first_seen(samples).contains(serial) && labels == device_info_labels(
                last_of(samples, serial),
            )
}

proof fn lemma_last_of_has_serial(samples: Seq<Sample>, serial: u64)
    requires
        has_serial(samples, serial),
    ensures
        last_of(samples, serial).serial == serial,
    decreases samples.len(),
{
    let i = choose|i: int| 0 <= i < samples.len() && (#[trigger] samples[i]).serial == serial;
    if samples.len() > 1 && samples.last().serial != serial {
        assert(samples.drop_last()[i].serial == serial);
        lemma_last_of_has_serial(samples.drop_last(), serial);
    }
}

proof fn lemma_seen_after(samples: Seq<Sample>, serial: u64)
    requires
        samples.len() > 0,
    ensures
        first_seen(samples).contains(serial) <==> (first_seen(samples.drop_last()).contains(serial)
            || serial == samples.last().serial),
        serial != samples.last().serial && first_seen(samples).contains(serial) ==> last_of(
            samples,
            serial,
        ) == last_of(samples.drop_last(), serial),
        first_seen(samples).contains(serial) ==> last_of(samples, serial).serial == serial,
{
    let front = samples.drop_last();
    lemma_first_seen(samples);
    lemma_first_seen(front);
    assert(first_seen(samples).contains(serial) <==> has_serial(samples, serial));
    assert(first_seen(front).contains(serial) <==> has_serial(front, serial));
    assert(samples[samples.len() - 1] == samples.last());
    if has_serial(front, serial) {
        let i = choose|i: int| 0 <= i < front.len() && (#[trigger] front[i]).serial == serial;
        assert(samples[i].serial == serial);
    }
    if has_serial(samples, serial) {
        lemma_last_of_has_serial(samples, serial);
        if serial != samples.last().serial {
            let i = choose|i: int|
                0 <= i < samples.len() && (#[trigger] samples[i]).serial == serial;
            assert(front[i].serial == serial);
        }
    }
}

proof fn lemma_info(version: Seq<char>, samples: Seq<Sample>)
    ensures
        info_fits(sampled_all(initial(version), samples).device_info, samples),
    decreases samples.len(),
{
    if samples.len() > 0 {
        let front = samples.drop_last();
        let earlier = first_seen(front);
        let last = samples.last();
        let before = sampled_all(initial(version), front);
        let after = sampled_all(initial(version), samples);
        lemma_info(version, front);
        lemma_devices(version, front);
        assert(before.devices.contains_key(last.serial) <==> earlier.contains(last.serial)) by {
            assert(earlier.to_set().contains(last.serial) <==> earlier.contains(last.serial));
        }
        assert forall|serial: u64| #[trigger] first_seen(samples).contains(serial) implies ({
            let labels = device_info_labels(last_of(samples, serial));
            after.device_info.contains_key(labels) && after.device_info[labels] == 1
        }) by {
            lemma_seen_after(samples, serial);
            if serial != last.serial {
                assert(earlier.contains(serial));
                lemma_identities_differ(last_of(samples, serial), last);
                if earlier.contains(last.serial) {
                    lemma_first_seen(front);
                    lemma_last_of_has_serial(front, last.serial);
                    lemma_identities_differ(
                        last_of(samples, serial),
                        last_of(front, last.serial),
                    );
                }
            }
        }
        assert forall|labels: Labels| #[trigger]
            after.device_info.contains_key(labels) implies exists|serial: u64| #[trigger]
            first_seen(samples).contains(serial) && labels == device_info_labels(
                last_of(samples, serial),
            ) by {
            if labels == device_info_labels(last) {
                lemma_seen_after(samples, last.serial);
                assert(first_seen(samples).contains(last.serial));
            } else {
                assert(before.device_info.contains_key(labels));
                let serial = choose|serial: u64| #[trigger]
                    earlier.contains(serial) && labels == device_info_labels(
                        last_of(front, serial),
                    );
                assert(serial != last.serial);
                lemma_seen_after(samples, serial);
                assert(first_seen(samples).contains(serial));
            }
        }
    }
}

proof fn lemma_latest_joined(
    front: Seq<ReadingView>,
    back: Seq<ReadingView>,
    series: Series,
    labels: Labels,
)
    ensures
        latest(front + back, series, labels) == (match latest(back, series, labels) {
            Some(value) => Some(value),
            None => latest(front, series, labels),
        }),
    decreases back.len(),
{
    if back.len() == 0 {
        assert(front + back =~= front);
    } else {
        assert((front + back).drop_last() =~= front + back.drop_last());
        lemma_latest_joined(front, back.drop_last(), series, labels);
    }
}

proof fn lemma_latest_of_other(readings: Seq<ReadingView>, series: Series, labels: Labels)
    requires
        forall|i: int| 0 <= i < readings.len() ==> (#[trigger] readings[i]).labels != labels,
    ensures
        latest(readings, series, labels) is None,
    decreases readings.len(),
{
    if readings.len() > 0 {
        assert(readings[readings.len() - 1].labels != labels);
        lemma_latest_of_other(readings.drop_last(), series, labels);
    }
}

proof fn lemma_latest_at(readings: Seq<ReadingView>, at: int)
    requires
        0 <= at < readings.len(),
        forall|i: int|
            at < i < readings.len() ==> (#[trigger] readings[i]).series != readings[at].series,
    ensures
        latest(readings, readings[at].series, readings[at].labels) == Some(readings[at].value),
    decreases readings.len(),
{
    if at < readings.len() - 1 {
        assert(readings[readings.len() - 1].series != readings[at].series);
        lemma_latest_at(readings.drop_last(), at);
    }
}

proof fn lemma_sample_readings(sample: Sample)
    ensures
        forall|i: int|
            0 <= i < sample_readings(sample).len() ==> (#[trigger] sample_readings(
                sample,
            )[i]).labels == device_labels(sample.serial) && sample_readings(sample)[i].series
                == Series::every()[i],
        sample_readings(sample).len() == 10,
{
}

proof fn lemma_series_differ(a: int, b: int)
    requires
        0 <= a < b < 10,
    ensures
        Series::every()[a] != Series::every()[b],
{
    assert(a == 0 || a == 1 || a == 2 || a == 3 || a == 4 || a == 5 || a == 6 || a == 7 || a == 8);
    assert(b == 1 || b == 2 || b == 3 || b == 4 || b == 5 || b == 6 || b == 7 || b == 8 || b == 9);
}

/// A sample sets each gauge of its device and leaves the gauges and the count of every other
/// device as they are.
pub proof fn law_sample_shows_its_device_alone(view: MetricsView, sample: Sample, serial: u64)
    ensures
        forall|i: int|
            0 <= i < sample_readings(sample).len() ==> latest(
                view.sampled(sample).readings,
                (#[trigger] sample_readings(sample)[i]).series,
                device_labels(sample.serial),
            ) == Some(sample_readings(sample)[i].value),
        serial != sample.serial ==> forall|series: Series| #[trigger]
            latest(view.sampled(sample).readings, series, device_labels(serial)) == latest(
                view.readings,
                series,
                device_labels(serial),
            ),
        serial != sample.serial ==> view.sampled(
            sample,
        ).device_observations_received.contains_key(device_labels(serial))
            == view.device_observations_received.contains_key(device_labels(serial)),
        serial != sample.serial ==> view.sampled(
            sample,
        ).device_observations_received[device_labels(serial)]
            == view.device_observations_received[device_labels(serial)],
{
    let readings = sample_readings(sample);
    lemma_sample_readings(sample);
    assert forall|i: int| 0 <= i < readings.len() implies latest(
        view.sampled(sample).readings,
        (#[trigger] readings[i]).series,
        device_labels(sample.serial),
    ) == Some(readings[i].value) by {
        assert forall|j: int| i < j < readings.len() implies (#[trigger] readings[j]).series
            != readings[i].series by {
            lemma_series_differ(i, j);
        }
        lemma_latest_at(readings, i);
        lemma_latest_joined(
            view.readings,
            readings,
            readings[i].series,
            device_labels(sample.serial),
        );
    }
    if serial != sample.serial {
        lemma_device_labels_differ(serial, sample.serial);
        assert forall|series: Series| #[trigger]
            latest(view.sampled(sample).readings, series, device_labels(serial)) == latest(
            view.readings,
            series,
            device_labels(serial),
        ) by {
            lemma_latest_of_other(readings, series, device_labels(serial));
            lemma_latest_joined(view.readings, readings, series, device_labels(serial));
        }
    }
}

/// Whether the gauges of each device show its last sample.
pub open spec fn shows_last_samples(
    readings: Seq<ReadingView>,
    samples: Seq<Sample>,
    serial: u64,
) -> bool {
    forall|i: int|
        0 <= i < sample_readings(last_of(samples, serial)).len() ==> latest(
            readings,
            (#[trigger] sample_readings(last_of(samples, serial))[i]).series,
            device_labels(serial),
        ) == Some(sample_readings(last_of(samples, serial))[i].value)
}

proof fn lemma_readings(version: Seq<char>, samples: Seq<Sample>, serial: u64)
    requires
        first_seen(samples).contains(serial),
    ensures
        shows_last_samples(sampled_all(initial(version), samples).readings, samples, serial),
    decreases samples.len(),
{
    let front = samples.drop_last();
    let before = sampled_all(initial(version), front);
    lemma_seen_after(samples, serial);
    law_sample_shows_its_device_alone(before, samples.last(), serial);
    if serial != samples.last().serial {
        lemma_readings(version, front, serial);
    } else {
        assert(last_of(samples, serial) == samples.last());
    }
}

/// After any samples from the start, the metrics count all of them, the devices among them
/// and the samples of each device, which add up; the gauges and the identity of each device
/// are those of its last sample, where a state of charge or a runtime that was not
/// advertised is shown as no number.
pub proof fn law_metrics_reflect_all_samples(version: Seq<char>, samples: Seq<Sample>)
    ensures
        ({
            let view = sampled_all(initial(version), samples);
            let serials = first_seen(samples);
            &&& view.observations_received == wrapped(samples.len())
            &&& serials.no_duplicates()
            &&& forall|serial: u64| #[trigger]
                serials.contains(serial) <==> has_serial(samples, serial)
            &&& view.devices_seen == gauge_count(serials.len() as int)
            &&& forall|labels: Labels| #[trigger]
                view.device_observations_received.contains_key(labels) <==> exists|serial: u64|
                    #[trigger]
                    serials.contains(serial) && labels == device_labels(serial)
            &&& forall|serial: u64| #[trigger]
                serials.contains(serial)
                    ==> view.device_observations_received[device_labels(serial)] == wrapped(
                    count_of(samples, serial),
                )
            &&& count_of_all(samples, serials) == samples.len()
            &&& forall|labels: Labels| #[trigger]
                view.device_info.contains_key(labels) <==> exists|serial: u64| #[trigger]
                    serials.contains(serial) && labels == device_info_labels(
                        last_of(samples, serial),
                    )
            &&& forall|serial: u64| #[trigger]
                serials.contains(serial) ==> {
                    let last = last_of(samples, serial);
                    let labels = device_labels(serial);
                    &&& last.serial == serial
                    &&& view.device_info[device_info_labels(last)] == 1
                    &&& shows_last_samples(view.readings, samples, serial)
                    &&& latest(view.readings, Series::Soc, labels) == Some(ReadingValue::Missing)
                        <==> last.soc_percent is None
                    &&& latest(view.readings, Series::Runtime, labels) == Some(
                        ReadingValue::Missing,
                    ) <==> last.runtime_minutes is None
                }
        }),
{
    let view = sampled_all(initial(version), samples);
    let serials = first_seen(samples);
    lemma_received(version, samples);
    lemma_first_seen(samples);
    lemma_devices(version, samples);
    lemma_counts(version, samples);
    lemma_counts_add_up(samples);
    lemma_info(version, samples);
    assert forall|labels: Labels| #[trigger]
        view.device_observations_received.contains_key(labels) <==> exists|serial: u64| #[trigger]
        serials.contains(serial) && labels == device_labels(serial) by {
        if view.device_observations_received.contains_key(labels) {
            let serial = choose|serial: u64| labels == #[trigger] device_labels(serial);
            assert(serials.contains(serial));
        }
        if exists|serial: u64| #[trigger]
            serials.contains(serial) && labels == device_labels(serial) {
            let serial = choose|serial: u64| #[trigger]
                serials.contains(serial) && labels == device_labels(serial);
            assert(view.device_observations_received.contains_key(device_labels(serial)));
        }
    }
    assert forall|serial: u64| #[trigger] serials.contains(serial) implies ({
        let last = last_of(samples, serial);
        let labels = device_labels(serial);
        &&& last.serial == serial
        &&& view.device_info[device_info_labels(last)] == 1
        &&& shows_last_samples(view.readings, samples, serial)
        &&& latest(view.readings, Series::Soc, labels) == Some(ReadingValue::Missing)
            <==> last.soc_percent is None
        &&& latest(view.readings, Series::Runtime, labels) == Some(ReadingValue::Missing)
            <==> last.runtime_minutes is None
    }) by {
        let last = last_of(samples, serial);
        lemma_last_of_has_serial(samples, serial);
        lemma_readings(version, samples, serial);
        lemma_sample_readings(last);
        assert(sample_readings(last)[6].series == Series::Soc);
        assert(sample_readings(last)[7].series == Series::Runtime);
    }
}

} // verus!
