use vstd::prelude::*;
use vstd::string::*;

use crate::config::{RabbitMQWarningConfig, WarningType};
use crate::service::{metric_views, MetricView, QueueMetric};
use crate::text::{decimal, push_decimal};

verus! {

/// The first line of every alert.
pub const ALERT_HEADER: &'static str = "队列数量过多，请检查是否有死信队列或过多的消息积压。\n";

/// The text before the number of offending queues in the closing line.
pub const ALERT_SUMMARY_PREFIX: &'static str = "共有 ";

/// The text after the number of offending queues in the closing line.
pub const ALERT_SUMMARY_SUFFIX: &'static str = " 个队列超过警戒值。";

/// The metrics whose count is above `size`, in their order.
pub open spec fn offending(ms: Seq<MetricView>, size: u32) -> Seq<MetricView>
    decreases ms.len(),
{
    if ms.len() == 0 {
        Seq::empty()
    } else {
        let prev = offending(ms.drop_last(), size);
        if ms.last().count > size {
            prev.push(ms.last())
        } else {
            prev
        }
    }
}

/// The line that names one offending queue: `display name: count`.
pub open spec fn alert_line(m: MetricView) -> Seq<char> {
    m.display_name() + ": "@ + decimal(m.count as nat) + "\n"@
}

/// The lines of the offending queues, in order.
pub open spec fn alert_lines(ms: Seq<MetricView>) -> Seq<char>
    decreases ms.len(),
{
    if ms.len() == 0 {
        Seq::empty()
    } else {
        alert_lines(ms.drop_last()) + alert_line(ms.last())
    }
}

/// The whole alert for the given offending queues.
pub open spec fn alert_text(off: Seq<MetricView>) -> Seq<char> {
    ALERT_HEADER@ + alert_lines(off) + ALERT_SUMMARY_PREFIX@ + decimal(off.len()) + ALERT_SUMMARY_SUFFIX@
}

/// An alert is due: alerting is on, there are metrics, and some are above the threshold.
pub open spec fn alert_due(ms: Seq<MetricView>, size: u32, enabled: bool) -> bool {
    enabled && ms.len() > 0 && offending(ms, size).len() > 0
}

/// The queues above the threshold, how many they are, and the alert text.
#[derive(Debug)]
pub struct AlertDecision {
    pub offending: Vec<QueueMetric>,
    pub count: usize,
    pub message: String,
}

/// An alert to send, and the channel to send it through.
#[derive(Debug)]
pub struct Notification {
    pub channel: WarningType,
    pub message: String,
}

/// Decides whether the metrics call for an alert: none when alerting is off,
/// when there are no metrics, or when no count is above `warning_size`;
/// otherwise the offending metrics in order, their number and the alert text.
pub fn evaluate(metrics: &Vec<QueueMetric>, warning_size: u32, enabled: bool) -> (r: Option<AlertDecision>)
    ensures
        !enabled || metrics@.len() == 0 ==> r is None,
        r is Some <==> alert_due(metric_views(metrics@), warning_size, enabled),
        match r {
            Some(d) => {
                let off = offending(metric_views(metrics@), warning_size);
                &&& metric_views(d.offending@) == off
                &&& d.count == off.len()
                &&& d.message@ == alert_text(off)
            },
            None => true,
        },
{
    if !enabled || metrics.len() == 0 {
        return None;
    }
    let ghost ms = metric_views(metrics@);
    let mut lines = String::new();
    let mut off: Vec<QueueMetric> = Vec::new();
    let mut i: usize = 0;
    while i < metrics.len()
        invariant
            i <= metrics@.len(),
            ms == metric_views(metrics@),
            metric_views(off@) == offending(ms.subrange(0, i as int), warning_size),
            lines@ == alert_lines(metric_views(off@)),
            off@.len() <= i,
        decreases metrics@.len() - i,
    {
        let m = &metrics[i];
        assert(ms.subrange(0, i + 1).drop_last() =~= ms.subrange(0, i as int));
        if m.count > warning_size {
            let ghost before = metric_views(off@);
            let mut line = m.display_name();
            line.append(": ");
            push_decimal(&mut line, m.count as u64);
            line.append("\n");
            lines.append(line.as_str());
            off.push(m.copy());
            assert(metric_views(off@) =~= before.push(ms[i as int]));
            assert(metric_views(off@).drop_last() =~= before);
        }
        i = i + 1;
    }
    assert(ms.subrange(0, metrics@.len() as int) =~= ms);
    if off.len() == 0 {
        return None;
    }
    let count = off.len();
    let mut message = String::from_str(ALERT_HEADER);
    message.append(lines.as_str());
    message.append(ALERT_SUMMARY_PREFIX);
    push_decimal(&mut message, count as u64);
    message.append(ALERT_SUMMARY_SUFFIX);
    Some(AlertDecision { offending: off, count, message })
}

/// The alert to send for the metrics under the warning configuration: the
/// decision's text, when a decision is made and a channel is configured.
pub fn warning_notification(metrics: &Vec<QueueMetric>, warning: &RabbitMQWarningConfig) -> (r: Option<Notification>)
    ensures
        r is Some <==> alert_due(metric_views(metrics@), warning.warning_queue_size, warning.enabled)
            && warning.warning_type is Some,
        match r {
            Some(n) => {
                &&& Some(n.channel) == warning.warning_type
                &&& n.message@ == alert_text(offending(metric_views(metrics@), warning.warning_queue_size))
            },
            None => true,
        },
{
    match evaluate(metrics, warning.warning_queue_size, warning.enabled) {
        Some(d) => match warning.warning_type {
            Some(channel) => Some(Notification { channel, message: d.message }),
            None => None,
        },
        None => None,
    }
}

} // verus!
