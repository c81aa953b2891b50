use mq_monitor::monitor::metrics_table;
use mq_monitor::service::QueueMetric;

fn expected(names_counts: &[(&str, u32)]) -> Vec<String> {
    let mut w = "队列".len();
    for (n, _) in names_counts {
        w = w.max(n.len());
    }
    let sep = "─".repeat(w + 14);
    let mut lines = vec![
        format!("┌{}┬──────────────┐", sep),
        format!("│ {:width$} │     count    │", "queue", width = w + 12),
        format!("├{}┼──────────────┤", sep),
    ];
    for (n, c) in names_counts {
        lines.push(format!("│ {:<width$} │ {:<12} │", n, c, width = w + 12));
    }
    lines.push(format!("└{}┴──────────────┘", sep));
    lines
}

#[test]
fn table_with_short_names_uses_heading_width() {
    let metrics = vec![
        QueueMetric { name: "q1".to_string(), alias: None, count: 3 },
        QueueMetric { name: "q3".to_string(), alias: None, count: 15 },
    ];
    let lines = metrics_table(&metrics);
    assert_eq!(lines, expected(&[("q1", 3), ("q3", 15)]));
    assert_eq!(lines[3], format!("│ q1{} │ 3            │", " ".repeat(16)));
}

#[test]
fn table_widens_for_long_names() {
    let metrics = vec![QueueMetric { name: "a.very.long.queue.name".to_string(), alias: None, count: 4294967295 }];
    assert_eq!(metrics_table(&metrics), expected(&[("a.very.long.queue.name", 4294967295)]));
}

#[test]
fn table_of_no_metrics_has_borders_only() {
    assert_eq!(metrics_table(&Vec::new()).len(), 4);
}
