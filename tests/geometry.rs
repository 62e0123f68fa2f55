use uring_rings::error::RingError;
use uring_rings::geometry::{zcrx_layout, RingGeometry, ZcrxLayout};

#[test]
fn layout_rounds_up_to_pages() {
    assert_eq!(
        zcrx_layout(4096, 32, 8192),
        Ok(ZcrxLayout { area_len: 8192, region_len: 8192 })
    );
    assert_eq!(
        zcrx_layout(4096, 256, 5000),
        Ok(ZcrxLayout { area_len: 8192, region_len: 8192 })
    );
    assert_eq!(
        zcrx_layout(4096, 257, 1),
        Ok(ZcrxLayout { area_len: 4096, region_len: 12288 })
    );
}

#[test]
fn layout_rejects_zero_and_overflow() {
    assert_eq!(zcrx_layout(0, 32, 8192), Err(RingError::InvalidConfiguration));
    assert_eq!(zcrx_layout(4096, 0, 8192), Err(RingError::InvalidConfiguration));
    assert_eq!(zcrx_layout(4096, 32, 0), Err(RingError::InvalidConfiguration));
    assert_eq!(zcrx_layout(4096, 32, usize::MAX), Err(RingError::InvalidConfiguration));
}

#[test]
fn granted_geometry_is_checked() {
    let g = RingGeometry::from_registration(32, 0, 64, 128, 8192).unwrap();
    assert_eq!(g.capacity(), 32);
    assert_eq!(g.mask(), 31);
    assert_eq!(g.head_offset(), 0);
    assert_eq!(g.tail_offset(), 64);
    assert_eq!(g.entries_offset(), 128);
    let bad = |r: Result<RingGeometry, RingError>| matches!(r, Err(RingError::RegistrationError));
    assert!(bad(RingGeometry::from_registration(0, 0, 64, 128, 8192)));
    assert!(bad(RingGeometry::from_registration(24, 0, 64, 128, 8192)));
    assert!(bad(RingGeometry::from_registration(32, 2, 64, 128, 8192)));
    assert!(bad(RingGeometry::from_registration(32, 0, 0, 128, 8192)));
    assert!(bad(RingGeometry::from_registration(32, 0, 64, 136, 8192)) == false);
    assert!(bad(RingGeometry::from_registration(32, 0, 64, 8000, 8192)));
    assert!(bad(RingGeometry::from_registration(32, 200, 64, 128, 8192)));
    assert!(bad(RingGeometry::from_registration(32, 0, 64, 128, 600)));
}
