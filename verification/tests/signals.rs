use stock_signals::signals::MaxPrice;
use stock_signals::signals::MinPrice;
use stock_signals::signals::PriceDifference;
use stock_signals::signals::WindowedSMA;

fn bits_of(xs: &[f64]) -> Vec<u64> {
    xs.iter().map(|x| x.to_bits()).collect()
}

fn pair(r: Option<(u64, u64)>) -> Option<(f64, f64)> {
    r.map(|(a, b)| (f64::from_bits(a), f64::from_bits(b)))
}

fn scalar(r: Option<u64>) -> Option<f64> {
    r.map(f64::from_bits)
}

fn series_of(r: Option<Vec<u64>>) -> Option<Vec<f64>> {
    r.map(|v| v.iter().map(|b| f64::from_bits(*b)).collect())
}

#[test]
#[allow(non_snake_case)]
fn test_PriceDifference_calculate() {
    let signal = PriceDifference;
    assert_eq!(pair(signal.calculate(&bits_of(&[]))), None);
    assert_eq!(pair(signal.calculate(&bits_of(&[1.0]))), Some((0.0, 0.0)));
    assert_eq!(pair(signal.calculate(&bits_of(&[1.0, 0.0]))), Some((-1.0, -1.0)));
    assert_eq!(
        pair(signal.calculate(&bits_of(&[2.0, 3.0, 5.0, 6.0, 1.0, 2.0, 10.0]))),
        Some((8.0, 4.0))
    );
    assert_eq!(
        pair(signal.calculate(&bits_of(&[0.0, 3.0, 5.0, 6.0, 1.0, 2.0, 1.0]))),
        Some((1.0, 1.0))
    );
}

#[test]
#[allow(non_snake_case)]
fn test_MinPrice_calculate() {
    let signal = MinPrice;
    assert_eq!(scalar(signal.calculate(&bits_of(&[]))), None);
    assert_eq!(scalar(signal.calculate(&bits_of(&[1.0]))), Some(1.0));
    assert_eq!(scalar(signal.calculate(&bits_of(&[1.0, 0.0]))), Some(0.0));
    assert_eq!(
        scalar(signal.calculate(&bits_of(&[2.0, 3.0, 5.0, 6.0, 1.0, 2.0, 10.0]))),
        Some(1.0)
    );
    assert_eq!(
        scalar(signal.calculate(&bits_of(&[0.0, 3.0, 5.0, 6.0, 1.0, 2.0, 1.0]))),
        Some(0.0)
    );
}

#[test]
#[allow(non_snake_case)]
fn test_MaxPrice_calculate() {
    let signal = MaxPrice;
    assert_eq!(scalar(signal.calculate(&bits_of(&[]))), None);
    assert_eq!(scalar(signal.calculate(&bits_of(&[1.0]))), Some(1.0));
    assert_eq!(scalar(signal.calculate(&bits_of(&[1.0, 0.0]))), Some(1.0));
    assert_eq!(
        scalar(signal.calculate(&bits_of(&[2.0, 3.0, 5.0, 6.0, 1.0, 2.0, 10.0]))),
        Some(10.0)
    );
    assert_eq!(
        scalar(signal.calculate(&bits_of(&[0.0, 3.0, 5.0, 6.0, 1.0, 2.0, 1.0]))),
        Some(6.0)
    );
}

#[test]
#[allow(non_snake_case)]
fn test_WindowedSMA_calculate() {
    let series = bits_of(&[2.0, 4.5, 5.3, 6.5, 4.7]);

    let signal = WindowedSMA { window_size: 3 };
    assert_eq!(
        series_of(signal.calculate(&series)),
        Some(vec![3.9333333333333336, 5.433333333333334, 5.5])
    );

    let signal = WindowedSMA { window_size: 5 };
    assert_eq!(series_of(signal.calculate(&series)), Some(vec![4.6]));

    let signal = WindowedSMA { window_size: 10 };
    assert_eq!(series_of(signal.calculate(&series)), Some(vec![]));
}

#[test]
fn windowed_sma_degenerate_window_is_absent() {
    for xs in [&[][..], &[1.0][..], &[2.0, 4.5, 5.3][..]] {
        let series = bits_of(xs);
        assert_eq!(WindowedSMA { window_size: 0 }.calculate(&series), None);
        assert_eq!(WindowedSMA { window_size: 1 }.calculate(&series), None);
    }
}

#[test]
fn windowed_sma_empty_series_is_absent() {
    assert_eq!(WindowedSMA { window_size: 3 }.calculate(&bits_of(&[])), None);
}

#[test]
fn windowed_sma_short_series_is_empty_not_absent() {
    let series = bits_of(&[7.25]);
    assert_eq!(series_of(WindowedSMA { window_size: 2 }.calculate(&series)), Some(vec![]));
}

#[test]
fn price_difference_single_element_is_zero_for_any_value() {
    for x in [0.0, -0.0, 1.0, -3.5, 1.0e300, 5.0e-324] {
        let got = pair(PriceDifference.calculate(&bits_of(&[x])));
        assert_eq!(got, Some((0.0, 0.0)));
    }
}

#[test]
fn min_max_bound_every_element() {
    let xs = [3.5, -2.0, 0.0, -0.0, 9.75, 9.75, -2.0, 4.25];
    let series = bits_of(&xs);
    let lo = scalar(MinPrice.calculate(&series)).unwrap();
    let hi = scalar(MaxPrice.calculate(&series)).unwrap();
    assert_eq!(lo, -2.0);
    assert_eq!(hi, 9.75);
    for x in xs {
        assert!(lo <= x && x <= hi);
    }
}
