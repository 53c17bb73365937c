use rust_sfml::color::Color;
use rust_sfml::ip_address::IpAddress;
use rust_sfml::primitive_type::PrimitiveType;
use rust_sfml::rect::Rect;
use rust_sfml::time::Time;
use rust_sfml::vector::{Vector2, Vector3};

#[test]
fn test_rect_contains() {
    let r1 = Rect::new(0, 0, 10, 10);

    assert!(r1.contains(Vector2 { x: 0, y: 0 }));
    assert!(r1.contains(Vector2 { x: 9, y: 9 }));
    assert!(!r1.contains(Vector2 { x: 5, y: -1 }));
    assert!(!r1.contains(Vector2 { x: 10, y: 5 }));
}

#[test]
fn test_get_corner() {
    let r1 = Rect::new(1, 3, 10, 10);
    let pos = r1.get_corner();

    assert_eq!(pos.x, 1);
    assert_eq!(pos.y, 3);
}

#[test]
fn test_get_size() {
    let r1 = Rect::new(1, 3, 10, 12);
    let size = r1.get_size();

    assert_eq!(size.x, 10);
    assert_eq!(size.y, 12);
}

#[test]
fn test_rect_intersects() {
    let r1 = Rect::new(0, 0, 10, 10);
    let r2 = Rect::new(6, 6, 20, 20);
    let r3 = Rect::new(-5, -5, 10, 10);

    assert!(r2.intersects(&r3).is_none());

    assert_eq!(r1.intersects(&r2).unwrap(), Rect::new(6, 6, 4, 4));
    assert_eq!(r1.intersects(&r3).unwrap(), Rect::new(0, 0, 5, 5));
}

#[test]
fn rect_with_negative_extent_still_contains_its_area() {
    // the same area as (0, 0, 10, 10), given from the opposite corner
    let r = Rect::new(10, 10, -10, -10);
    assert!(r.contains(Vector2 { x: 0, y: 0 }));
    assert!(r.contains(Vector2 { x: 9, y: 9 }));
    assert!(!r.contains(Vector2 { x: 10, y: 10 }));
}

#[test]
fn rect_equals() {
    let r1 = Rect::new(1, 2, 3, 4);
    let r2 = Rect::new(1, 2, 3, 4);
    let r3 = Rect::new(1, 2, 3, 5);
    assert!(r1.equals(&r2));
    assert!(!r1.equals(&r3));
    assert_eq!(r1.get_other_corner(), Vector2 { x: 4, y: 6 });
}

#[test]
fn color_conversions() {
    let code: u32 = 0x4BDA_9CFF;
    let col = Color::from_integer(code);

    assert_eq!(Color::from_hex("#4BDA9C"), col);
    assert_eq!(Color::from_rgb(75, 218, 156), col);
    assert_eq!(code, col.to_integer());
}

#[test]
fn color_components_and_ivec() {
    let col = Color::from_rgba(5, 12, 28, 127);
    assert_eq!(col.r, 5);
    assert_eq!(col.g, 12);
    assert_eq!(col.b, 28);
    assert_eq!(col.a, 127);
    assert_eq!(col.to_ivec4(), (5, 12, 28, 127));
    assert_eq!(Color::from_integer(col.to_integer()), col);
}

#[test]
fn ipaddress_test() {
    let mut ip = IpAddress::new(0x01, 0x23, 0x45, 0x67);
    assert_eq!(ip.to_int(), 0x0123_4567);
    ip = IpAddress::from(0xabab_abab);
    assert_eq!(ip, IpAddress::new(0xab, 0xab, 0xab, 0xab));
}

#[test]
fn ipaddress_quad_notation() {
    assert_eq!(IpAddress::new(1, 35, 69, 103).to_quad(), "1.35.69.103");
    assert_eq!(IpAddress::none().to_quad(), "0.0.0.0");
    assert_eq!(IpAddress::new(255, 0, 10, 9).to_quad(), "255.0.10.9");
    assert_eq!(IpAddress::none().bytes(), vec![0, 0, 0, 0]);
    assert_eq!(IpAddress::new(10, 0, 0, 1).bytes(), vec![10, 0, 0, 1]);
}

#[test]
fn ipaddress_quad_parsing() {
    assert_eq!(
        IpAddress::from_quad("1.35.69.103"),
        Some(IpAddress::new(1, 35, 69, 103))
    );
    assert_eq!(
        IpAddress::from_quad("0.0.0.0"),
        Some(IpAddress::none())
    );
    assert_eq!(
        IpAddress::from_quad("255.255.255.255"),
        Some(IpAddress::new(255, 255, 255, 255))
    );

    // a formatted address parses back to itself
    let ip = IpAddress::new(192, 168, 0, 17);
    assert_eq!(IpAddress::from_quad(&ip.to_quad()), Some(ip));

    assert_eq!(IpAddress::from_quad(""), None);
    assert_eq!(IpAddress::from_quad("localhost"), None);
    assert_eq!(IpAddress::from_quad("1.2.3"), None);
    assert_eq!(IpAddress::from_quad("1.2.3.4.5"), None);
    assert_eq!(IpAddress::from_quad("1..3.4"), None);
    assert_eq!(IpAddress::from_quad("256.0.0.1"), None);
    assert_eq!(IpAddress::from_quad("01.2.3.4"), None);
    assert_eq!(IpAddress::from_quad("1.2.3.4 "), None);
}

#[test]
fn conversion() {
    let time = Time::microseconds(5_120_000);
    assert_eq!(5120, time.as_milliseconds());
    assert_eq!(5_120_000, time.as_microseconds());

    let negative = Time::microseconds(-800_000);
    assert_eq!(-800, negative.as_milliseconds());

    assert_eq!(Time::milliseconds(12).as_microseconds(), 12_000);
    assert_eq!(Time::new(800).as_microseconds(), 800);
}

#[test]
fn cfml_vector2() {
    let vec = Vector2::new(1, 3);
    assert_eq!(vec.x, 1);
    assert_eq!(vec.y, 3);

    let vec2 = vec;
    assert_eq!(vec, vec2);
}

#[test]
fn cfml_vector3() {
    let vec = Vector3::new(1.0f32, 3.5, -12.0);
    assert_eq!(vec.x, 1.0);
    assert_eq!(vec.y, 3.5);
    assert_eq!(vec.z, -12.0);

    let vec2 = vec;
    assert_eq!(vec, vec2);
}

#[test]
fn primitive_vertex_counts() {
    assert_eq!(PrimitiveType::Points.vertex_count(), 1);
    assert_eq!(PrimitiveType::Lines.vertex_count(), 2);
    assert_eq!(PrimitiveType::Triangles.vertex_count(), 3);
    assert_eq!(PrimitiveType::Quads.vertex_count(), 4);
}
