use associative_cache::{
    Capacity4, HashDirectMapped, Indices, PointerDirectMapped, PointerTwoWay,
};

#[test]
fn pointer_direct_mapped() {
    assert_eq!(
        <PointerDirectMapped<8> as Indices<usize, Capacity4>>::indices(&0),
        vec![0]
    );
    assert_eq!(
        <PointerDirectMapped<8> as Indices<usize, Capacity4>>::indices(&8),
        vec![1]
    );
    assert_eq!(
        <PointerDirectMapped<8> as Indices<usize, Capacity4>>::indices(&16),
        vec![2]
    );
    assert_eq!(
        <PointerDirectMapped<8> as Indices<usize, Capacity4>>::indices(&24),
        vec![3]
    );
    assert_eq!(
        <PointerDirectMapped<8> as Indices<usize, Capacity4>>::indices(&32),
        vec![0]
    );
}

#[test]
fn pointer_two_way() {
    assert_eq!(
        <PointerTwoWay<8> as Indices<usize, Capacity4>>::indices(&0),
        vec![0, 1]
    );
    assert_eq!(
        <PointerTwoWay<8> as Indices<usize, Capacity4>>::indices(&8),
        vec![2, 3]
    );
    assert_eq!(
        <PointerTwoWay<8> as Indices<usize, Capacity4>>::indices(&16),
        vec![0, 1]
    );
    assert_eq!(
        <PointerTwoWay<8> as Indices<usize, Capacity4>>::indices(&24),
        vec![2, 3]
    );
    assert_eq!(
        <PointerTwoWay<8> as Indices<usize, Capacity4>>::indices(&32),
        vec![0, 1]
    );
}

#[test]
fn hash_indices_deterministic_and_in_bounds() {
    let a = <HashDirectMapped as Indices<usize, Capacity4>>::indices(&12345);
    let b = <HashDirectMapped as Indices<usize, Capacity4>>::indices(&12345);
    assert_eq!(a, b);
    assert_eq!(a.len(), 1);
    assert!(a[0] < 4);
}
