use emergence_lib::weather::{CurrentWeather, Weather};

#[test]
fn weather_starts_clear_on_day_zero() {
    let weather = CurrentWeather::default();
    assert_eq!(weather.get(), Weather::Clear);
    assert_eq!(weather.last_updated(), 0);
}

#[test]
fn weather_changes_at_most_once_a_day() {
    let mut rng = rand::thread_rng();
    let mut weather = CurrentWeather::default();
    weather.set_daily_weather(0, &mut rng);
    assert_eq!(weather.get(), Weather::Clear);
    weather.set_daily_weather(1, &mut rng);
    assert_eq!(weather.last_updated(), 1);
    let today = weather.get();
    for _ in 0..20 {
        weather.set_daily_weather(1, &mut rng);
        assert_eq!(weather.get(), today);
    }
}

#[test]
fn weather_indices_follow_declaration_order() {
    assert_eq!(Weather::from_index(0), Weather::Clear);
    assert_eq!(Weather::from_index(1), Weather::Cloudy);
    assert_eq!(Weather::from_index(2), Weather::Rainy);
}

#[test]
fn random_weather_takes_every_kind() {
    let mut rng = rand::thread_rng();
    let mut seen = [false; 3];
    for _ in 0..300 {
        match Weather::random(&mut rng) {
            Weather::Clear => seen[0] = true,
            Weather::Cloudy => seen[1] = true,
            Weather::Rainy => seen[2] = true,
        }
    }
    assert_eq!(seen, [true, true, true]);
}
