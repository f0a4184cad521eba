//! Tests for the garbage collector.

use rusty_python::{Allocator, PythonValue, GC};
use std::sync::Arc;

#[test]
fn test_gc_basic() {
    let mut allocator = Allocator::new(GC::new());

    let obj1 = allocator.allocate(PythonValue::Integer(42));
    let obj2 = allocator.allocate(PythonValue::String("test".to_string()));

    let _list = allocator.allocate_root(PythonValue::List(vec![obj1, obj2]));

    allocator.collect();

    assert_eq!(allocator.gc().get_objects_count(), 3);
}

#[test]
fn test_gc_collect_unused() {
    let mut allocator = Allocator::new(GC::new());

    let obj1 = allocator.allocate(PythonValue::Integer(42));
    let obj2 = allocator.allocate(PythonValue::String("test".to_string()));

    drop(obj1);
    drop(obj2);

    allocator.collect();

    assert_eq!(allocator.gc().get_objects_count(), 0);
}

#[test]
fn test_gc_circular_reference() {
    let mut allocator = Allocator::new(GC::new());

    let mut list1 = allocator.allocate(PythonValue::List(vec![]));
    let list2 = allocator.allocate(PythonValue::List(vec![list1.clone()]));

    let list1_mut = Arc::make_mut(&mut list1);
    if let PythonValue::List(items) = list1_mut {
        items.push(list2.clone());
    }

    drop(list1);
    drop(list2);

    allocator.collect();

    assert_eq!(allocator.gc().get_objects_count(), 0);
}

#[test]
fn gc_keeps_nested_reachable_objects() {
    let mut allocator = Allocator::new(GC::new());
    let leaf = allocator.allocate(PythonValue::Integer(1));
    let middle = allocator.allocate(PythonValue::List(vec![leaf]));
    let _unreached = allocator.allocate(PythonValue::Integer(2));
    let _root = allocator.allocate_root(PythonValue::Tuple(vec![middle]));
    allocator.collect();
    assert_eq!(allocator.gc().get_objects_count(), 3);
    assert_eq!(allocator.gc().get_young_objects_count(), 3);
    assert_eq!(allocator.gc().get_old_objects_count(), 0);
}

#[test]
fn gc_promotes_survivors_after_enough_collections() {
    let mut allocator = Allocator::new(GC::new());
    let _root = allocator.allocate_root(PythonValue::Integer(7));
    for _ in 0..3 {
        allocator.collect();
    }
    assert_eq!(allocator.gc().get_objects_count(), 1);
    assert_eq!(allocator.gc().get_young_objects_count(), 0);
    assert_eq!(allocator.gc().get_old_objects_count(), 1);
}

#[test]
fn gc_stop_keeps_objects() {
    let mut gc = GC::new();
    gc.register_object(Arc::new(PythonValue::Integer(1)));
    gc.stop();
    assert_eq!(gc.get_objects_count(), 1);
}
