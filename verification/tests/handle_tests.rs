use java_bindings::handle::cast_handle;
use java_bindings::handle::drop_handle;
use java_bindings::handle::to_handle;
use java_bindings::handle::Handle;
use java_bindings::handle::InvalidHandleError;
use java_bindings::handle::LookupError;
use java_bindings::handle::ResourceRegistry;

// Type tags for the two object kinds the scenarios use.
const WALLET: u64 = 1;
const BLOCK: u64 = 2;

#[test]
fn mint_cast_drop_scenario() {
    let mut registry: ResourceRegistry<String> = ResourceRegistry::new();
    let handle = to_handle(&mut registry, "object A".to_string(), WALLET);

    let cast_same_type = cast_handle(&registry, handle, WALLET);
    assert_eq!(cast_same_type, Ok(&"object A".to_string()));

    let cast_other_type = cast_handle(&registry, handle, BLOCK);
    assert_eq!(cast_other_type, Err(InvalidHandleError));

    assert_eq!(drop_handle(&mut registry, handle), Ok(()));
    assert_eq!(cast_handle(&registry, handle, WALLET), Err(InvalidHandleError));
    assert_eq!(drop_handle(&mut registry, handle), Err(InvalidHandleError));
}

#[test]
fn minted_handles_are_pairwise_distinct() {
    let mut registry: ResourceRegistry<u64> = ResourceRegistry::new();
    let mut raw_values = Vec::new();
    for object in 0..16u64 {
        let handle = to_handle(&mut registry, object, WALLET);
        raw_values.push(handle.as_raw());
    }
    for i in 0..raw_values.len() {
        for j in 0..raw_values.len() {
            if i != j {
                assert_ne!(raw_values[i], raw_values[j]);
            }
        }
    }
}

#[test]
fn cast_round_trip_returns_the_object() {
    let mut registry: ResourceRegistry<Vec<u8>> = ResourceRegistry::new();
    let object = vec![1u8, 2, 3];
    let handle = to_handle(&mut registry, object.clone(), BLOCK);
    let recovered = cast_handle(&registry, handle, BLOCK).unwrap();
    assert_eq!(*recovered, object);
}

#[test]
fn cast_with_wrong_tag_fails() {
    let mut registry: ResourceRegistry<u64> = ResourceRegistry::new();
    let handle = to_handle(&mut registry, 42, WALLET);
    assert_eq!(cast_handle(&registry, handle, BLOCK), Err(InvalidHandleError));
    // The entry is untouched: the right tag still works.
    assert_eq!(cast_handle(&registry, handle, WALLET), Ok(&42));
}

#[test]
fn double_drop_fails() {
    let mut registry: ResourceRegistry<u64> = ResourceRegistry::new();
    let handle = to_handle(&mut registry, 7, WALLET);
    assert_eq!(drop_handle(&mut registry, handle), Ok(()));
    assert_eq!(drop_handle(&mut registry, handle), Err(InvalidHandleError));
    assert_eq!(drop_handle(&mut registry, handle), Err(InvalidHandleError));
}

#[test]
fn unknown_handle_fails() {
    let mut registry: ResourceRegistry<u64> = ResourceRegistry::new();
    let _live = to_handle(&mut registry, 7, WALLET);
    let forged = Handle::from_raw(12345);
    assert_eq!(cast_handle(&registry, forged, WALLET), Err(InvalidHandleError));
    assert_eq!(drop_handle(&mut registry, forged), Err(InvalidHandleError));
    let forged_max = Handle::from_raw(u64::MAX);
    assert_eq!(cast_handle(&registry, forged_max, WALLET), Err(InvalidHandleError));
}

#[test]
fn repeated_drops_succeed_exactly_once() {
    let mut registry: ResourceRegistry<String> = ResourceRegistry::new();
    let handle = to_handle(&mut registry, "raced".to_string(), WALLET);
    let mut successes: u32 = 0;
    for _ in 0..5 {
        if drop_handle(&mut registry, handle).is_ok() {
            successes += 1;
        }
    }
    assert_eq!(successes, 1);
}

#[test]
fn retired_handle_is_not_reissued() {
    let mut registry: ResourceRegistry<u64> = ResourceRegistry::new();
    let first = to_handle(&mut registry, 1, WALLET);
    drop_handle(&mut registry, first).unwrap();
    // New mints never reuse the retired integer, so the stale handle
    // keeps failing no matter how many objects come after it.
    for object in 0..8u64 {
        let fresh = to_handle(&mut registry, object, WALLET);
        assert_ne!(fresh.as_raw(), first.as_raw());
    }
    assert_eq!(cast_handle(&registry, first, WALLET), Err(InvalidHandleError));
}

#[test]
fn registry_len_tracks_mints_and_drops() {
    let mut registry: ResourceRegistry<u64> = ResourceRegistry::new();
    assert_eq!(registry.len(), 0);
    let a = to_handle(&mut registry, 1, WALLET);
    let b = to_handle(&mut registry, 2, BLOCK);
    assert_eq!(registry.len(), 2);
    drop_handle(&mut registry, a).unwrap();
    assert_eq!(registry.len(), 1);
    drop_handle(&mut registry, b).unwrap();
    assert_eq!(registry.len(), 0);
}

#[test]
fn raw_integer_round_trip() {
    let mut registry: ResourceRegistry<u64> = ResourceRegistry::new();
    let handle = to_handle(&mut registry, 9, WALLET);
    // The integer crosses the boundary and comes back as a token that
    // still names the same object.
    let wire: u64 = handle.as_raw();
    let back = Handle::from_raw(wire);
    assert_eq!(cast_handle(&registry, back, WALLET), Ok(&9));
}

#[test]
fn unregister_returns_ownership() {
    let mut registry: ResourceRegistry<String> = ResourceRegistry::new();
    let handle = registry.register("mine again".to_string(), WALLET);
    let object = registry.unregister(handle).unwrap();
    assert_eq!(object, "mine again");
    assert_eq!(registry.unregister(handle), Err(InvalidHandleError));
}

#[test]
fn lookup_distinguishes_absent_from_mismatched() {
    let mut registry: ResourceRegistry<u64> = ResourceRegistry::new();
    let handle = registry.register(5, WALLET);
    assert_eq!(registry.lookup(handle, BLOCK), Err(LookupError::TypeMismatch));
    assert_eq!(
        registry.lookup(Handle::from_raw(999), WALLET),
        Err(LookupError::InvalidHandle)
    );
    assert_eq!(registry.lookup(handle, WALLET), Ok(&5));
}

#[test]
fn invalid_handle_message_text() {
    let e = drop_handle(&mut ResourceRegistry::<u64>::new(), Handle::from_raw(3)).unwrap_err();
    assert_eq!(
        e.message(),
        "Invalid handle value: unknown, already dropped, or of the wrong type"
    );
}
