//! Tests of the bounded top-k selector.

use embedding_search::data_structures::KLargestNeighboursHeap;
use embedding_search::types::Neighbour;
use uuid::Uuid;

/// The order-preserving key of a similarity score: flip the sign bit of a
/// non-negative number, complement a negative one, so that unsigned key
/// order matches numeric order.
fn sim_key(x: f32) -> u32 {
    let b = x.to_bits();
    if b & 0x8000_0000 != 0 {
        !b
    } else {
        b | 0x8000_0000
    }
}

fn fresh() -> u128 {
    Uuid::new_v4().as_u128()
}

#[test]
fn data_structures_test_insert_neighbour_to_empty_heap() {
    let mut heap: KLargestNeighboursHeap = KLargestNeighboursHeap::new(2 as usize);
    let neighbour = Neighbour {
        uuid: fresh(),
        similarity: sim_key(0.1),
    };
    heap.push(neighbour);
    assert_eq!(1, heap.len());
    assert_eq!(sim_key(0.1), heap.peek().unwrap().similarity)
}

#[test]
fn data_structures_test_insert_neighbour_to_non_empty_heap() {
    let mut heap: KLargestNeighboursHeap = KLargestNeighboursHeap::new(2 as usize);
    let id = fresh();
    heap.push(Neighbour {
        uuid: id,
        similarity: sim_key(0.1),
    });
    let neighbour = Neighbour {
        uuid: fresh(),
        similarity: sim_key(0.2),
    };
    heap.push(neighbour);
    assert_eq!(2, heap.len());
    assert_eq!(sim_key(0.1), heap.peek().unwrap().similarity);
}

#[test]
fn data_structures_test_insert_neighbour_into_full_heap() {
    let mut heap: KLargestNeighboursHeap = KLargestNeighboursHeap::new(2 as usize);
    let id = fresh();
    heap.push(Neighbour {
        uuid: id,
        similarity: sim_key(0.5),
    });
    heap.push(Neighbour {
        uuid: id,
        similarity: sim_key(0.2),
    });
    let neighbour = Neighbour {
        uuid: fresh(),
        similarity: sim_key(0.6),
    };
    heap.push(neighbour);
    assert_eq!(2, heap.len());
    assert_eq!(sim_key(0.5), heap.peek().unwrap().similarity);
}

#[test]
fn data_structures_test_insert_non_largest_neighbour_into_full_heap() {
    let mut heap: KLargestNeighboursHeap = KLargestNeighboursHeap::new(2 as usize);
    let id = fresh();
    heap.push(Neighbour {
        uuid: id,
        similarity: sim_key(0.5),
    });
    heap.push(Neighbour {
        uuid: id,
        similarity: sim_key(0.2),
    });
    let neighbour = Neighbour {
        uuid: fresh(),
        similarity: sim_key(0.3),
    };
    heap.push(neighbour);
    assert_eq!(2, heap.len());
    assert_eq!(sim_key(0.3), heap.peek().unwrap().similarity);
}

#[test]
fn search_test_insert_neighbour_to_empty_heap() {
    let mut heap: KLargestNeighboursHeap = KLargestNeighboursHeap::new(2 as usize);
    let neighbour = Neighbour {
        uuid: fresh(),
        similarity: sim_key(0.1),
    };
    heap.push(neighbour);
    assert_eq!(1, heap.len());
    assert_eq!(sim_key(0.1), heap.peek().unwrap().similarity)
}

#[test]
fn search_test_insert_neighbour_to_non_empty_heap() {
    let mut heap: KLargestNeighboursHeap = KLargestNeighboursHeap::new(2 as usize);
    let id = fresh();
    heap.push(Neighbour {
        uuid: id,
        similarity: sim_key(0.1),
    });
    let neighbour = Neighbour {
        uuid: fresh(),
        similarity: sim_key(0.2),
    };
    heap.push(neighbour);
    assert_eq!(2, heap.len());
    assert_eq!(sim_key(0.1), heap.peek().unwrap().similarity);
}

#[test]
fn search_test_insert_neighbour_into_full_heap() {
    let mut heap: KLargestNeighboursHeap = KLargestNeighboursHeap::new(2 as usize);
    let id = fresh();
    heap.push(Neighbour {
        uuid: id,
        similarity: sim_key(0.5),
    });
    heap.push(Neighbour {
        uuid: id,
        similarity: sim_key(0.2),
    });
    let neighbour = Neighbour {
        uuid: fresh(),
        similarity: sim_key(0.6),
    };
    heap.push(neighbour);
    assert_eq!(2, heap.len());
    assert_eq!(sim_key(0.5), heap.peek().unwrap().similarity);
}

#[test]
fn search_test_insert_non_largest_neighbour_into_full_heap() {
    let mut heap: KLargestNeighboursHeap = KLargestNeighboursHeap::new(2 as usize);
    let id = fresh();
    heap.push(Neighbour {
        uuid: id,
        similarity: sim_key(0.5),
    });
    heap.push(Neighbour {
        uuid: id,
        similarity: sim_key(0.2),
    });
    let neighbour = Neighbour {
        uuid: fresh(),
        similarity: sim_key(0.3),
    };
    heap.push(neighbour);
    assert_eq!(2, heap.len());
    assert_eq!(sim_key(0.3), heap.peek().unwrap().similarity);
}

#[test]
fn capacity_never_exceeded() {
    let scores = [0.4f32, 0.8, 0.1, 0.9, 0.3];
    let mut heap = KLargestNeighboursHeap::new(3);
    let mut pushed: usize = 0;
    for s in scores.iter() {
        heap.push(Neighbour {
            uuid: fresh(),
            similarity: sim_key(*s),
        });
        pushed += 1;
        assert!(heap.len() <= 3);
        assert_eq!(pushed.min(3), heap.len());
    }
    assert_eq!(3, heap.len());
}

#[test]
fn zero_capacity_retains_nothing() {
    let mut heap = KLargestNeighboursHeap::new(0);
    heap.push(Neighbour {
        uuid: fresh(),
        similarity: sim_key(0.9),
    });
    assert_eq!(0, heap.len());
    assert!(heap.peek().is_none());
    assert!(heap.into_sorted_vec().is_empty());
}

#[test]
fn drain_returns_k_highest_sorted() {
    let scores = [0.1f32, 0.9, 0.5, 0.7];
    let mut heap = KLargestNeighboursHeap::new(2);
    for s in scores.iter() {
        heap.push(Neighbour {
            uuid: fresh(),
            similarity: sim_key(*s),
        });
    }
    let v = heap.into_sorted_vec();
    assert_eq!(2, v.len());
    assert_eq!(sim_key(0.9), v[0].similarity);
    assert_eq!(sim_key(0.7), v[1].similarity);
}

#[test]
fn tie_with_weakest_keeps_earlier_candidate() {
    let mut heap = KLargestNeighboursHeap::new(2);
    let first = fresh();
    let second = fresh();
    let latecomer = fresh();
    heap.push(Neighbour {
        uuid: first,
        similarity: sim_key(0.5),
    });
    heap.push(Neighbour {
        uuid: second,
        similarity: sim_key(0.2),
    });
    heap.push(Neighbour {
        uuid: latecomer,
        similarity: sim_key(0.2),
    });
    assert_eq!(2, heap.len());
    let v = heap.into_sorted_vec();
    assert_eq!(sim_key(0.5), v[0].similarity);
    assert_eq!(first, v[0].uuid);
    assert_eq!(sim_key(0.2), v[1].similarity);
    assert_eq!(second, v[1].uuid);
}

#[test]
fn pop_removes_weakest() {
    let mut heap = KLargestNeighboursHeap::new(3);
    heap.push(Neighbour {
        uuid: fresh(),
        similarity: sim_key(0.6),
    });
    heap.push(Neighbour {
        uuid: fresh(),
        similarity: sim_key(0.3),
    });
    let weakest = heap.pop().unwrap();
    assert_eq!(sim_key(0.3), weakest.similarity);
    assert_eq!(1, heap.len());
    assert_eq!(sim_key(0.6), heap.peek().unwrap().similarity);
    heap.pop();
    assert!(heap.pop().is_none());
}
