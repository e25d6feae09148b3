use stream_group::measurement::{Measurement, MAX_TEMP, MIN_TEMP, STATION_POSTAL_CODE};
use stream_group::window::Window;
use stream_group::Config;

#[test]
fn window_sums_what_it_holds() {
    let mut w = Window::new(3);
    assert_eq!(w.len(), 0);
    assert_eq!(w.sum(), 0);
    w.append(10);
    w.append(20);
    assert_eq!(w.len(), 2);
    assert_eq!(w.sum(), 30);
    w.append(30);
    assert_eq!(w.len(), 3);
    assert_eq!(w.sum(), 60);
}

#[test]
fn window_evicts_the_oldest_at_capacity() {
    let mut w = Window::new(3);
    for v in [1, 2, 3, 4] {
        w.append(v);
    }
    // 1 fell off the back: 4 + 3 + 2 remain.
    assert_eq!(w.len(), 3);
    assert_eq!(w.capacity(), 3);
    assert_eq!(w.sum(), 9);
    w.append(-10);
    assert_eq!(w.sum(), -3);
}

#[test]
fn measurement_walks_within_bounds() {
    let mut m = Measurement::new();
    assert_eq!(m.postal_code, STATION_POSTAL_CODE);
    assert_eq!(m.current_temp, 50);
    for _ in 0..500 {
        let before = m.current_temp;
        m.get_next();
        assert!((MIN_TEMP..=MAX_TEMP).contains(&m.current_temp));
        assert!((m.current_temp - before).abs() <= 1);
        assert_eq!(m.postal_code, STATION_POSTAL_CODE);
    }
}

#[test]
fn measurement_walk_saturates_at_the_ends() {
    let mut m = Measurement::new();
    for _ in 0..60 {
        m.walk(true);
    }
    assert_eq!(m.current_temp, MAX_TEMP);
    m.walk(true);
    assert_eq!(m.current_temp, MAX_TEMP);
    for _ in 0..110 {
        m.walk(false);
    }
    assert_eq!(m.current_temp, MIN_TEMP);
    m.walk(false);
    assert_eq!(m.current_temp, MIN_TEMP);
}

#[test]
fn measurement_renders_stream_fields() {
    let m = Measurement::new();
    let data = m.to_stream_data();
    assert_eq!(data.len(), 2);
    assert_eq!(data[0], ("postal_code".to_string(), "94016".to_string()));
    assert_eq!(data[1], ("current_temp".to_string(), "50".to_string()));
}

#[test]
fn config_carries_connection_parameters() {
    let c = Config {
        host: "127.0.0.1".to_string(),
        port: 6379,
        db: 0,
        username: None,
        password: None,
    };
    let copy = c.clone();
    assert_eq!(copy.host, "127.0.0.1");
    assert_eq!(copy.port, 6379);
    assert_eq!(copy.db, 0);
    assert!(copy.username.is_none());
    assert!(copy.password.is_none());
}
