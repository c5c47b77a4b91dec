use std::sync::Arc;

use pulseq_rs::sequence::display::{label_text, RefPrinter};

#[test]
fn labels_are_three_wide() {
    assert_eq!(label_text(0), "  0");
    assert_eq!(label_text(7), "  7");
    assert_eq!(label_text(42), " 42");
    assert_eq!(label_text(100), "100");
    assert_eq!(label_text(999), "999");
    assert_eq!(label_text(1000), "1000");
    assert_eq!(label_text(usize::MAX), format!("{:3}", usize::MAX));
    for n in 0..1200 {
        assert_eq!(label_text(n), format!("{n:3}"));
    }
}

#[test]
fn objects_are_numbered_as_they_come() {
    let a = Arc::new("a");
    let b = Arc::new("b");
    let mut printer = RefPrinter::new();
    assert_eq!(printer.print(80, &a), "  1");
    assert_eq!(printer.print(16, &b), "  2");
    assert_eq!(printer.print(80, &a), "  1");
    assert_eq!(printer.print(16, &b), "  2");
    assert_eq!(printer.print(24, &a), "  3");
    let objects: Vec<&str> = printer.objects().iter().map(|o| **o).collect();
    assert_eq!(objects, vec!["a", "b", "a"]);
}

#[test]
fn absent_object_has_a_dash() {
    let mut printer: RefPrinter<u8> = RefPrinter::new();
    assert_eq!(printer.print_opt(5, &None), "  -");
    assert!(printer.objects().is_empty());
    assert_eq!(printer.print_opt(5, &Some(Arc::new(1))), "  1");
    assert_eq!(printer.print_opt(6, &None), "  -");
    assert_eq!(printer.print_opt(6, &Some(Arc::new(2))), "  2");
    assert_eq!(printer.print_opt(5, &Some(Arc::new(3))), "  1");
    assert_eq!(printer.objects().len(), 2);
}

#[test]
fn many_objects() {
    let mut printer = RefPrinter::new();
    for key in 0..150usize {
        assert_eq!(printer.print(key * 8, &Arc::new(key)), format!("{:3}", key + 1));
    }
    assert_eq!(printer.print(8 * 99, &Arc::new(0)), "100");
    assert_eq!(printer.objects().len(), 150);
}
