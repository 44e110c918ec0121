//! The tables of the library against the published decimal coefficients, and
//! its reference functions against the same polynomials in the machine's own
//! double-precision arithmetic.
use thermocouple::{b_type, e_type, j_type, k_type, n_type, r_type, s_type, t_type};
use thermocouple::{Celsius, Millivolts};

fn same(ours: &[u64], published: &[f64]) {
    assert_eq!(ours.len(), published.len());
    for i in 0..ours.len() {
        assert_eq!(ours[i], published[i].to_bits(), "coefficient {}", i);
    }
}

fn horner(coefs: &[f64], x: f64) -> f64 {
    let mut acc = coefs[coefs.len() - 1];
    for c in coefs.iter().rev().skip(1) {
        acc = x * acc + c;
    }
    acc
}

/// `steps + 1` values from `lo` to `hi`, both included.
fn grid(lo: f64, hi: f64, steps: u32) -> Vec<f64> {
    let mut v = Vec::new();
    for i in 0..=steps {
        v.push(lo + (hi - lo) * (i as f64) / (steps as f64));
    }
    v[steps as usize] = hi;
    v
}

const B_TYPE_E_BELOW_630_615: [f64; 7] = [
    0.000000000000E+00,
    -0.246508183460E-03,
    0.590404211710E-05,
    -0.132579316360E-08,
    0.156682919010E-11,
    -0.169445292400E-14,
    0.629903470940E-18,
];

const B_TYPE_E_ABOVE_630_615: [f64; 9] = [
    -0.389381686210E+01,
    0.285717474700E-01,
    -0.848851047850E-04,
    0.157852801640E-06,
    -0.168353448640E-09,
    0.111097940130E-12,
    -0.445154310330E-16,
    0.989756408210E-20,
    -0.937913302890E-24,
];

const B_TYPE_T0: [f64; 9] = [
    9.8423321E+01,
    6.9971500E+02,
    -8.4765304E+02,
    1.0052644E+03,
    -8.3345952E+02,
    4.5508542E+02,
    -1.5523037E+02,
    2.9886750E+01,
    -2.4742860E+00,
];

const B_TYPE_T1: [f64; 9] = [
    2.1315071E+02,
    2.8510504E+02,
    -5.2742887E+01,
    9.9160804E+00,
    -1.2965303E+00,
    1.1195870E-01,
    -6.0625199E-03,
    1.8661696E-04,
    -2.4878585E-06,
];

const E_TYPE_E_BELOW_0: [f64; 14] = [
    0.000000000000E+00,
    0.586655087080E-01,
    0.454109771240E-04,
    -0.779980486860E-06,
    -0.258001608430E-07,
    -0.594525830570E-09,
    -0.932140586670E-11,
    -0.102876055340E-12,
    -0.803701236210E-15,
    -0.439794973910E-17,
    -0.164147763550E-19,
    -0.396736195160E-22,
    -0.558273287210E-25,
    -0.346578420130E-28,
];

const E_TYPE_E_ABOVE_0: [f64; 11] = [
    0.000000000000E+00,
    0.586655087100E-01,
    0.450322755820E-04,
    0.289084072120E-07,
    -0.330568966520E-09,
    0.650244032700E-12,
    -0.191974955040E-15,
    -0.125366004970E-17,
    0.214892175690E-20,
    -0.143880417820E-23,
    0.359608994810E-27,
];

const E_TYPE_T0: [f64; 10] = [
    0.0000000E+00,
    1.6977288E+01,
    -4.3514970E-01,
    -1.5859697E-01,
    -9.2502871E-02,
    -2.6084314E-02,
    -4.1360199E-03,
    -3.4034030E-04,
    -1.1564890E-05,
    0.0000000E+00,
];

const E_TYPE_T1: [f64; 10] = [
    0.0000000E+00,
    1.7057035E+01,
    -2.3301759E-01,
    6.5435585E-03,
    -7.3562749E-05,
    -1.7896001E-06,
    8.4036165E-08,
    -1.3735879E-09,
    1.0629823E-11,
    -3.2447087E-14,
];

const J_TYPE_E_BELOW_760: [f64; 9] = [
    0.000000000000E+00,
    0.503811878150E-01,
    0.304758369300E-04,
    -0.856810657200E-07,
    0.132281952950E-09,
    -0.170529583370E-12,
    0.209480906970E-15,
    -0.125383953360E-18,
    0.156317256970E-22,
];

const J_TYPE_E_ABOVE_760: [f64; 6] = [
    0.296456256810E+03,
    -0.149761277860E+01,
    0.317871039240E-02,
    -0.318476867010E-05,
    0.157208190040E-08,
    -0.306913690560E-12,
];

const J_TYPE_T0: [f64; 9] = [
    0.0000000E+00,
    1.9528268E+01,
    -1.2286185E+00,
    -1.0752178E+00,
    -5.9086933E-01,
    -1.7256713E-01,
    -2.8131513E-02,
    -2.3963370E-03,
    -8.3823321E-05,
];

const J_TYPE_T1: [f64; 9] = [
    0.000000E+00,
    1.978425E+01,
    -2.001204E-01,
    1.036969E-02,
    -2.549687E-04,
    3.585153E-06,
    -5.344285E-08,
    5.099890E-10,
    0.000000E+00,
];

const J_TYPE_T2: [f64; 9] = [
    -3.11358187E+03,
    3.00543684E+02,
    -9.94773230E+00,
    1.70276630E-01,
    -1.43033468E-03,
    4.73886084E-06,
    0.00000000E+00,
    0.00000000E+00,
    0.00000000E+00,
];

const K_TYPE_E_BELOW_0: [f64; 11] = [
    0.000000000000E+00,
    0.394501280250E-01,
    0.236223735980E-04,
    -0.328589067840E-06,
    -0.499048287770E-08,
    -0.675090591730E-10,
    -0.574103274280E-12,
    -0.310888728940E-14,
    -0.104516093650E-16,
    -0.198892668780E-19,
    -0.163226974860E-22,
];

const K_TYPE_E_ABOVE_0: [f64; 10] = [
    -0.176004136860E-01,
    0.389212049750E-01,
    0.185587700320E-04,
    -0.994575928740E-07,
    0.318409457190E-09,
    -0.560728448890E-12,
    0.560750590590E-15,
    -0.320207200030E-18,
    0.971511471520E-22,
    -0.121047212750E-25,
];

const K_TYPE_T0: [f64; 10] = [
    0.0000000E+00,
    2.5173462E+01,
    -1.1662878E+00,
    -1.0833638E+00,
    -8.9773540E-01,
    -3.7342377E-01,
    -8.6632643E-02,
    -1.0450598E-02,
    -5.1920577E-04,
    0.0000000E+00,
];

const K_TYPE_T1: [f64; 10] = [
    0.000000E+00,
    2.508355E+01,
    7.860106E-02,
    -2.503131E-01,
    8.315270E-02,
    -1.228034E-02,
    9.804036E-04,
    -4.413030E-05,
    1.057734E-06,
    -1.052755E-08,
];

const K_TYPE_T2: [f64; 10] = [
    -1.318058E+02,
    4.830222E+01,
    -1.646031E+00,
    5.464731E-02,
    -9.650715E-04,
    8.802193E-06,
    -3.110810E-08,
    0.000000E+00,
    0.000000E+00,
    0.000000E+00,
];

const N_TYPE_E_BELOW_0: [f64; 9] = [
    0.000000000000E+00,
    0.261591059620E-01,
    0.109574842280E-04,
    -0.938411115540E-07,
    -0.464120397590E-10,
    -0.263033577160E-11,
    -0.226534380030E-13,
    -0.760893007910E-16,
    -0.934196678350E-19,
];

const N_TYPE_E_ABOVE_0: [f64; 11] = [
    0.000000000000E+00,
    0.259293946010E-01,
    0.157101418800E-04,
    0.438256272370E-07,
    -0.252611697940E-09,
    0.643118193390E-12,
    -0.100634715190E-14,
    0.997453389920E-18,
    -0.608632456070E-21,
    0.208492293390E-24,
    -0.306821961510E-28,
];

const N_TYPE_T0: [f64; 10] = [
    0.0000000E+00,
    3.8436847E+01,
    1.1010485E+00,
    5.2229312E+00,
    7.2060525E+00,
    5.8488586E+00,
    2.7754916E+00,
    7.7075166E-01,
    1.1582665E-01,
    7.3138868E-03,
];

const N_TYPE_T1: [f64; 10] = [
    0.00000E+00,
    3.86896E+01,
    -1.08267E+00,
    4.70205E-02,
    -2.12169E-06,
    -1.17272E-04,
    5.39280E-06,
    -7.98156E-08,
    0.00000E+00,
    0.00000E+00,
];

const N_TYPE_T2: [f64; 10] = [
    1.972485E+01,
    3.300943E+01,
    -3.915159E-01,
    9.855391E-03,
    -1.274371E-04,
    7.767022E-07,
    0.000000E+00,
    0.000000E+00,
    0.000000E+00,
    0.000000E+00,
];

const R_TYPE_E_BELOW_1064_18: [f64; 10] = [
    0.000000000000E+00,
    0.528961729765E-02,
    0.139166589782E-04,
    -0.238855693017E-07,
    0.356916001063E-10,
    -0.462347666298E-13,
    0.500777441034E-16,
    -0.373105886191E-19,
    0.157716482367E-22,
    -0.281038625251E-26,
];

const R_TYPE_E_ABOVE_1064_18_BELOW_1664_5: [f64; 6] = [
    0.295157925316E+01,
    -0.252061251332E-02,
    0.159564501865E-04,
    -0.764085947576E-08,
    0.205305291024E-11,
    -0.293359668173E-15,
];

const R_TYPE_E_ABOVE_1664_5: [f64; 5] = [
    0.152232118209E+03,
    -0.268819888545E+00,
    0.171280280471E-03,
    -0.345895706453E-07,
    -0.934633971046E-14,
];

const R_TYPE_T0: [f64; 11] = [
    0.0000000E+00,
    1.8891380E+02,
    -9.3835290E+01,
    1.3068619E+02,
    -2.2703580E+02,
    3.5145659E+02,
    -3.8953900E+02,
    2.8239471E+02,
    -1.2607281E+02,
    3.1353611E+01,
    -3.3187769E+00,
];

const R_TYPE_T1: [f64; 11] = [
    1.334584505E+01,
    1.472644573E+02,
    -1.844024844E+01,
    4.031129726E+00,
    -6.249428360E-01,
    6.468412046E-02,
    -4.458750426E-03,
    1.994710149E-04,
    -5.313401790E-06,
    6.481976217E-08,
    0.000000000E+00,
];

const R_TYPE_T2: [f64; 11] = [
    -8.199599416E+01,
    1.553962042E+02,
    -8.342197663E+00,
    4.279433549E-01,
    -1.191577910E-02,
    1.492290091E-04,
    0.000000000E+00,
    0.000000000E+00,
    0.000000000E+00,
    0.000000000E+00,
    0.000000000E+00,
];

const R_TYPE_T3: [f64; 11] = [
    3.406177836E+04,
    -7.023729171E+03,
    5.582903813E+02,
    -1.952394635E+01,
    2.560740231E-01,
    0.000000000E+00,
    0.000000000E+00,
    0.000000000E+00,
    0.000000000E+00,
    0.000000000E+00,
    0.000000000E+00,
];

const S_TYPE_E_BELOW_1064_18: [f64; 9] = [
    0.000000000000E+00,
    0.540313308631E-02,
    0.125934289740E-04,
    -0.232477968689E-07,
    0.322028823036E-10,
    -0.331465196389E-13,
    0.255744251786E-16,
    -0.125068871393E-19,
    0.271443176145E-23,
];

const S_TYPE_E_ABOVE_1064_18_BELOW_1664_5: [f64; 5] = [
    0.132900444085E+01,
    0.334509311344E-02,
    0.654805192818E-05,
    -0.164856259209E-08,
    0.129989605174E-13,
];

const S_TYPE_E_ABOVE_1664_5: [f64; 5] = [
    0.146628232636E+03,
    -0.258430516752E+00,
    0.163693574641E-03,
    -0.330439046987E-07,
    -0.943223690612E-14,
];

const S_TYPE_T0: [f64; 10] = [
    0.00000000E+00,
    1.84949460E+02,
    -8.00504062E+01,
    1.02237430E+02,
    -1.52248592E+02,
    1.88821343E+02,
    -1.59085941E+02,
    8.23027880E+01,
    -2.34181944E+01,
    2.79786260E+00,
];

const S_TYPE_T1: [f64; 10] = [
    1.291507177E+01,
    1.466298863E+02,
    -1.534713402E+01,
    3.145945973E+00,
    -4.163257839E-01,
    3.187963771E-02,
    -1.291637500E-03,
    2.183475087E-05,
    -1.447379511E-07,
    8.211272125E-09,
];

const S_TYPE_T2: [f64; 10] = [
    -8.087801117E+01,
    1.621573104E+02,
    -8.536869453E+00,
    4.719686976E-01,
    -1.441693666E-02,
    2.081618890E-04,
    0.000000000E+00,
    0.000000000E+00,
    0.000000000E+00,
    0.000000000E+00,
];

const S_TYPE_T3: [f64; 10] = [
    5.333875126E+04,
    -1.235892298E+04,
    1.092657613E+03,
    -4.265693686E+01,
    6.247205420E-01,
    0.000000000E+00,
    0.000000000E+00,
    0.000000000E+00,
    0.000000000E+00,
    0.000000000E+00,
];

const T_TYPE_E_BELOW_0: [f64; 15] = [
    0.000000000000E+00,
    0.387481063640E-01,
    0.441944343470E-04,
    0.118443231050E-06,
    0.200329735540E-07,
    0.901380195590E-09,
    0.226511565930E-10,
    0.360711542050E-12,
    0.384939398830E-14,
    0.282135219250E-16,
    0.142515947790E-18,
    0.487686622860E-21,
    0.107955392700E-23,
    0.139450270620E-26,
    0.797951539270E-30,
];

const T_TYPE_E_ABOVE_0: [f64; 9] = [
    0.000000000000E+00,
    0.387481063640E-01,
    0.332922278800E-04,
    0.206182434040E-06,
    -0.218822568460E-08,
    0.109968809280E-10,
    -0.308157587720E-13,
    0.454791352900E-16,
    -0.275129016730E-19,
];

const T_TYPE_T0: [f64; 8] = [
    0.0000000E+00,
    2.5949192E+01,
    -2.1316967E-01,
    7.9018692E-01,
    4.2527777E-01,
    1.3304473E-01,
    2.0241446E-02,
    1.2668171E-03,
];

const T_TYPE_T1: [f64; 8] = [
    0.000000E+00,
    2.592800E+01,
    -7.602961E-01,
    4.637791E-02,
    -2.165394E-03,
    6.048144E-05,
    -7.293422E-07,
    0.000000E+00,
];

#[test]
fn type_b_tables_hold_the_published_coefficients() {
    same(&b_type::B_TYPE_E_BELOW_630_615, &B_TYPE_E_BELOW_630_615);
    same(&b_type::B_TYPE_E_ABOVE_630_615, &B_TYPE_E_ABOVE_630_615);
    same(&b_type::B_TYPE_T0, &B_TYPE_T0);
    same(&b_type::B_TYPE_T1, &B_TYPE_T1);
    assert_eq!(b_type::LOWEST_TEMPERATURE, (0.0_f64).to_bits());
    assert_eq!(b_type::HIGHEST_TEMPERATURE, (1820.0_f64).to_bits());
    assert_eq!(b_type::E_BREAK_0, (630.615_f64).to_bits());
    assert_eq!(b_type::LOWEST_VOLTAGE, (0.291_f64 - 0.0005_f64).to_bits());
    assert_eq!(b_type::HIGHEST_VOLTAGE, (13.82_f64 + 0.0005_f64).to_bits());
    assert_eq!(b_type::T_BREAK_0, (2.431_f64).to_bits());
}

fn native_b_e(t: f64) -> f64 {
    if !(t > 630.615) {
        horner(&B_TYPE_E_BELOW_630_615, t)
    } else {
        horner(&B_TYPE_E_ABOVE_630_615, t)
    }
}

fn native_b_t(e: f64) -> f64 {
    if e < 2.431 {
        horner(&B_TYPE_T0, e)
    } else {
        horner(&B_TYPE_T1, e)
    }
}

#[test]
fn type_b_e_is_the_polynomial_of_its_stretch() {
    let mut points = grid(0.0, 1820.0, 20_000);
    points.push(630.615);
    points.push(f64::from_bits((630.615_f64).to_bits() + 1));
    for t in points {
        assert!(b_type::e_in_range(Celsius(t.to_bits())));
        let ours = b_type::e(Celsius(t.to_bits()));
        assert_eq!(ours.0, native_b_e(t).to_bits(), "at {}", t);
    }
}

#[test]
fn type_b_t_is_the_polynomial_of_its_stretch() {
    let mut points = grid(0.291, 13.82, 20_000);
    points.push(2.431);
    points.push(f64::from_bits((2.431_f64).to_bits() - 1));
    for e in points {
        assert!(b_type::t_in_range(Millivolts(e.to_bits())));
        let ours = b_type::t(Millivolts(e.to_bits()));
        assert_eq!(ours.0, native_b_t(e).to_bits(), "at {}", e);
    }
}

#[test]
fn type_b_extrapolates_with_the_nearest_stretch() {
    for t in [0.0_f64 - 40.0, 1820.0 + 250.0, 1.0e6, -1.0e6] {
        let ours = b_type::e_extrapolated(Celsius(t.to_bits()));
        assert_eq!(ours.0, native_b_e(t).to_bits(), "at {}", t);
    }
    for e in [0.291_f64 - 3.0, 13.82 + 10.0, 1.0e3, -1.0e3] {
        let ours = b_type::t_extrapolated(Millivolts(e.to_bits()));
        assert_eq!(ours.0, native_b_t(e).to_bits(), "at {}", e);
    }
}

#[test]
fn type_e_tables_hold_the_published_coefficients() {
    same(&e_type::E_TYPE_E_BELOW_0, &E_TYPE_E_BELOW_0);
    same(&e_type::E_TYPE_E_ABOVE_0, &E_TYPE_E_ABOVE_0);
    same(&e_type::E_TYPE_T0, &E_TYPE_T0);
    same(&e_type::E_TYPE_T1, &E_TYPE_T1);
    assert_eq!(e_type::LOWEST_TEMPERATURE, (-270.0_f64).to_bits());
    assert_eq!(e_type::HIGHEST_TEMPERATURE, (1000.0_f64).to_bits());
    assert_eq!(e_type::E_BREAK_0, (0.0_f64).to_bits());
    assert_eq!(e_type::LOWEST_VOLTAGE, (-8.825_f64 - 0.0005_f64).to_bits());
    assert_eq!(e_type::HIGHEST_VOLTAGE, (76.373_f64 + 0.0005_f64).to_bits());
    assert_eq!(e_type::T_BREAK_0, (0.0_f64).to_bits());
}

fn native_e_e(t: f64) -> f64 {
    if !(t > 0.0) {
        horner(&E_TYPE_E_BELOW_0, t)
    } else {
        horner(&E_TYPE_E_ABOVE_0, t)
    }
}

fn native_e_t(e: f64) -> f64 {
    if e < 0.0 {
        horner(&E_TYPE_T0, e)
    } else {
        horner(&E_TYPE_T1, e)
    }
}

#[test]
fn type_e_e_is_the_polynomial_of_its_stretch() {
    let mut points = grid(-270.0, 1000.0, 20_000);
    points.push(0.0);
    points.push(f64::from_bits(1));
    for t in points {
        assert!(e_type::e_in_range(Celsius(t.to_bits())));
        let ours = e_type::e(Celsius(t.to_bits()));
        assert_eq!(ours.0, native_e_e(t).to_bits(), "at {}", t);
    }
}

#[test]
fn type_e_t_is_the_polynomial_of_its_stretch() {
    let mut points = grid(-8.825, 76.373, 20_000);
    points.push(0.0);
    points.push(-f64::from_bits(1));
    points.push(-0.0);
    for e in points {
        assert!(e_type::t_in_range(Millivolts(e.to_bits())));
        let ours = e_type::t(Millivolts(e.to_bits()));
        assert_eq!(ours.0, native_e_t(e).to_bits(), "at {}", e);
    }
}

#[test]
fn type_e_extrapolates_with_the_nearest_stretch() {
    for t in [-270.0_f64 - 40.0, 1000.0 + 250.0, 1.0e6, -1.0e6] {
        let ours = e_type::e_extrapolated(Celsius(t.to_bits()));
        assert_eq!(ours.0, native_e_e(t).to_bits(), "at {}", t);
    }
    for e in [-8.825_f64 - 3.0, 76.373 + 10.0, 1.0e3, -1.0e3] {
        let ours = e_type::t_extrapolated(Millivolts(e.to_bits()));
        assert_eq!(ours.0, native_e_t(e).to_bits(), "at {}", e);
    }
}

#[test]
fn type_j_tables_hold_the_published_coefficients() {
    same(&j_type::J_TYPE_E_BELOW_760, &J_TYPE_E_BELOW_760);
    same(&j_type::J_TYPE_E_ABOVE_760, &J_TYPE_E_ABOVE_760);
    same(&j_type::J_TYPE_T0, &J_TYPE_T0);
    same(&j_type::J_TYPE_T1, &J_TYPE_T1);
    same(&j_type::J_TYPE_T2, &J_TYPE_T2);
    assert_eq!(j_type::LOWEST_TEMPERATURE, (-210.0_f64).to_bits());
    assert_eq!(j_type::HIGHEST_TEMPERATURE, (1200.0_f64).to_bits());
    assert_eq!(j_type::E_BREAK_0, (760.0_f64).to_bits());
    assert_eq!(j_type::LOWEST_VOLTAGE, (-8.095_f64 - 0.0005_f64).to_bits());
    assert_eq!(j_type::HIGHEST_VOLTAGE, (69.553_f64 + 0.0005_f64).to_bits());
    assert_eq!(j_type::T_BREAK_0, (0.0_f64).to_bits());
    assert_eq!(j_type::T_BREAK_1, (42.919_f64).to_bits());
}

fn native_j_e(t: f64) -> f64 {
    if !(t > 760.0) {
        horner(&J_TYPE_E_BELOW_760, t)
    } else {
        horner(&J_TYPE_E_ABOVE_760, t)
    }
}

fn native_j_t(e: f64) -> f64 {
    if e < 0.0 {
        horner(&J_TYPE_T0, e)
    } else if e < 42.919 {
        horner(&J_TYPE_T1, e)
    } else {
        horner(&J_TYPE_T2, e)
    }
}

#[test]
fn type_j_e_is_the_polynomial_of_its_stretch() {
    let mut points = grid(-210.0, 1200.0, 20_000);
    points.push(760.0);
    points.push(f64::from_bits((760.0_f64).to_bits() + 1));
    for t in points {
        assert!(j_type::e_in_range(Celsius(t.to_bits())));
        let ours = j_type::e(Celsius(t.to_bits()));
        assert_eq!(ours.0, native_j_e(t).to_bits(), "at {}", t);
    }
}

#[test]
fn type_j_t_is_the_polynomial_of_its_stretch() {
    let mut points = grid(-8.095, 69.553, 20_000);
    points.push(0.0);
    points.push(-f64::from_bits(1));
    points.push(-0.0);
    points.push(42.919);
    points.push(f64::from_bits((42.919_f64).to_bits() - 1));
    for e in points {
        assert!(j_type::t_in_range(Millivolts(e.to_bits())));
        let ours = j_type::t(Millivolts(e.to_bits()));
        assert_eq!(ours.0, native_j_t(e).to_bits(), "at {}", e);
    }
}

#[test]
fn type_j_extrapolates_with_the_nearest_stretch() {
    for t in [-210.0_f64 - 40.0, 1200.0 + 250.0, 1.0e6, -1.0e6] {
        let ours = j_type::e_extrapolated(Celsius(t.to_bits()));
        assert_eq!(ours.0, native_j_e(t).to_bits(), "at {}", t);
    }
    for e in [-8.095_f64 - 3.0, 69.553 + 10.0, 1.0e3, -1.0e3] {
        let ours = j_type::t_extrapolated(Millivolts(e.to_bits()));
        assert_eq!(ours.0, native_j_t(e).to_bits(), "at {}", e);
    }
}

#[test]
fn type_k_tables_hold_the_published_coefficients() {
    same(&k_type::K_TYPE_E_BELOW_0, &K_TYPE_E_BELOW_0);
    same(&k_type::K_TYPE_E_ABOVE_0, &K_TYPE_E_ABOVE_0);
    same(&k_type::K_TYPE_T0, &K_TYPE_T0);
    same(&k_type::K_TYPE_T1, &K_TYPE_T1);
    same(&k_type::K_TYPE_T2, &K_TYPE_T2);
    assert_eq!(k_type::LOWEST_TEMPERATURE, (-270.0_f64).to_bits());
    assert_eq!(k_type::HIGHEST_TEMPERATURE, (1372.0_f64).to_bits());
    assert_eq!(k_type::E_BREAK_0, (0.0_f64).to_bits());
    assert_eq!(k_type::LOWEST_VOLTAGE, (-5.891_f64 - 0.0005_f64).to_bits());
    assert_eq!(k_type::HIGHEST_VOLTAGE, (54.886_f64 + 0.0005_f64).to_bits());
    assert_eq!(k_type::T_BREAK_0, (0.0_f64).to_bits());
    assert_eq!(k_type::T_BREAK_1, (20.644_f64).to_bits());
    assert_eq!(k_type::EXPONENTIAL_A0, (0.118597600000E+00_f64).to_bits());
    assert_eq!(k_type::EXPONENTIAL_A1, (-0.118343200000E-03_f64).to_bits());
    assert_eq!(k_type::EXPONENTIAL_A2, (0.126968600000E+03_f64).to_bits());
}

fn native_k_e(t: f64) -> f64 {
    if !(t > 0.0) {
        horner(&K_TYPE_E_BELOW_0, t)
    } else {
        horner(&K_TYPE_E_ABOVE_0, t)
            + 0.118597600000E+00 * libm::exp(-0.118343200000E-03 * (t - 0.126968600000E+03) * (t - 0.126968600000E+03))
    }
}

fn native_k_t(e: f64) -> f64 {
    if e < 0.0 {
        horner(&K_TYPE_T0, e)
    } else if e < 20.644 {
        horner(&K_TYPE_T1, e)
    } else {
        horner(&K_TYPE_T2, e)
    }
}

#[test]
fn type_k_e_is_the_polynomial_of_its_stretch() {
    let mut points = grid(-270.0, 1372.0, 20_000);
    points.push(0.0);
    points.push(f64::from_bits(1));
    for t in points {
        let exponent = f64::from_bits(k_type::e_exponent(Celsius(t.to_bits())));
        let exponential = libm::exp(exponent).to_bits();
        assert!(k_type::e_in_range(Celsius(t.to_bits())));
        let ours = k_type::e(Celsius(t.to_bits()), exponential);
        assert_eq!(ours.0, native_k_e(t).to_bits(), "at {}", t);
    }
}

#[test]
fn type_k_t_is_the_polynomial_of_its_stretch() {
    let mut points = grid(-5.891, 54.886, 20_000);
    points.push(0.0);
    points.push(-f64::from_bits(1));
    points.push(-0.0);
    points.push(20.644);
    points.push(f64::from_bits((20.644_f64).to_bits() - 1));
    for e in points {
        assert!(k_type::t_in_range(Millivolts(e.to_bits())));
        let ours = k_type::t(Millivolts(e.to_bits()));
        assert_eq!(ours.0, native_k_t(e).to_bits(), "at {}", e);
    }
}

#[test]
fn type_k_extrapolates_with_the_nearest_stretch() {
    for t in [-270.0_f64 - 40.0, 1372.0 + 250.0, 1.0e6, -1.0e6] {
        let exponent = f64::from_bits(k_type::e_exponent(Celsius(t.to_bits())));
        let exponential = libm::exp(exponent).to_bits();
        let ours = k_type::e_extrapolated(Celsius(t.to_bits()), exponential);
        assert_eq!(ours.0, native_k_e(t).to_bits(), "at {}", t);
    }
    for e in [-5.891_f64 - 3.0, 54.886 + 10.0, 1.0e3, -1.0e3] {
        let ours = k_type::t_extrapolated(Millivolts(e.to_bits()));
        assert_eq!(ours.0, native_k_t(e).to_bits(), "at {}", e);
    }
}

#[test]
fn type_n_tables_hold_the_published_coefficients() {
    same(&n_type::N_TYPE_E_BELOW_0, &N_TYPE_E_BELOW_0);
    same(&n_type::N_TYPE_E_ABOVE_0, &N_TYPE_E_ABOVE_0);
    same(&n_type::N_TYPE_T0, &N_TYPE_T0);
    same(&n_type::N_TYPE_T1, &N_TYPE_T1);
    same(&n_type::N_TYPE_T2, &N_TYPE_T2);
    assert_eq!(n_type::LOWEST_TEMPERATURE, (-270.0_f64).to_bits());
    assert_eq!(n_type::HIGHEST_TEMPERATURE, (1300.0_f64).to_bits());
    assert_eq!(n_type::E_BREAK_0, (0.0_f64).to_bits());
    assert_eq!(n_type::LOWEST_VOLTAGE, (-3.990_f64 - 0.0005_f64).to_bits());
    assert_eq!(n_type::HIGHEST_VOLTAGE, (47.513_f64 + 0.0005_f64).to_bits());
    assert_eq!(n_type::T_BREAK_0, (0.0_f64).to_bits());
    assert_eq!(n_type::T_BREAK_1, (20.613_f64).to_bits());
}

fn native_n_e(t: f64) -> f64 {
    if !(t > 0.0) {
        horner(&N_TYPE_E_BELOW_0, t)
    } else {
        horner(&N_TYPE_E_ABOVE_0, t)
    }
}

fn native_n_t(e: f64) -> f64 {
    if e < 0.0 {
        horner(&N_TYPE_T0, e)
    } else if e < 20.613 {
        horner(&N_TYPE_T1, e)
    } else {
        horner(&N_TYPE_T2, e)
    }
}

#[test]
fn type_n_e_is_the_polynomial_of_its_stretch() {
    let mut points = grid(-270.0, 1300.0, 20_000);
    points.push(0.0);
    points.push(f64::from_bits(1));
    for t in points {
        assert!(n_type::e_in_range(Celsius(t.to_bits())));
        let ours = n_type::e(Celsius(t.to_bits()));
        assert_eq!(ours.0, native_n_e(t).to_bits(), "at {}", t);
    }
}

#[test]
fn type_n_t_is_the_polynomial_of_its_stretch() {
    let mut points = grid(-3.990, 47.513, 20_000);
    points.push(0.0);
    points.push(-f64::from_bits(1));
    points.push(-0.0);
    points.push(20.613);
    points.push(f64::from_bits((20.613_f64).to_bits() - 1));
    for e in points {
        assert!(n_type::t_in_range(Millivolts(e.to_bits())));
        let ours = n_type::t(Millivolts(e.to_bits()));
        assert_eq!(ours.0, native_n_t(e).to_bits(), "at {}", e);
    }
}

#[test]
fn type_n_extrapolates_with_the_nearest_stretch() {
    for t in [-270.0_f64 - 40.0, 1300.0 + 250.0, 1.0e6, -1.0e6] {
        let ours = n_type::e_extrapolated(Celsius(t.to_bits()));
        assert_eq!(ours.0, native_n_e(t).to_bits(), "at {}", t);
    }
    for e in [-3.990_f64 - 3.0, 47.513 + 10.0, 1.0e3, -1.0e3] {
        let ours = n_type::t_extrapolated(Millivolts(e.to_bits()));
        assert_eq!(ours.0, native_n_t(e).to_bits(), "at {}", e);
    }
}

#[test]
fn type_r_tables_hold_the_published_coefficients() {
    same(&r_type::R_TYPE_E_BELOW_1064_18, &R_TYPE_E_BELOW_1064_18);
    same(&r_type::R_TYPE_E_ABOVE_1064_18_BELOW_1664_5, &R_TYPE_E_ABOVE_1064_18_BELOW_1664_5);
    same(&r_type::R_TYPE_E_ABOVE_1664_5, &R_TYPE_E_ABOVE_1664_5);
    same(&r_type::R_TYPE_T0, &R_TYPE_T0);
    same(&r_type::R_TYPE_T1, &R_TYPE_T1);
    same(&r_type::R_TYPE_T2, &R_TYPE_T2);
    same(&r_type::R_TYPE_T3, &R_TYPE_T3);
    assert_eq!(r_type::LOWEST_TEMPERATURE, (-50.0_f64).to_bits());
    assert_eq!(r_type::HIGHEST_TEMPERATURE, (1768.1_f64).to_bits());
    assert_eq!(r_type::E_BREAK_0, (1064.18_f64).to_bits());
    assert_eq!(r_type::E_BREAK_1, (1664.5_f64).to_bits());
    assert_eq!(r_type::LOWEST_VOLTAGE, (-0.226_f64 - 0.0005_f64).to_bits());
    assert_eq!(r_type::HIGHEST_VOLTAGE, (21.103_f64 + 0.0005_f64).to_bits());
    assert_eq!(r_type::T_BREAK_0, (1.923_f64).to_bits());
    assert_eq!(r_type::T_BREAK_1, (13.228_f64).to_bits());
    assert_eq!(r_type::T_BREAK_2, (19.739_f64).to_bits());
}

fn native_r_e(t: f64) -> f64 {
    if !(t > 1064.18) {
        horner(&R_TYPE_E_BELOW_1064_18, t)
    } else if !(t > 1664.5) {
        horner(&R_TYPE_E_ABOVE_1064_18_BELOW_1664_5, t)
    } else {
        horner(&R_TYPE_E_ABOVE_1664_5, t)
    }
}

fn native_r_t(e: f64) -> f64 {
    if e < 1.923 {
        horner(&R_TYPE_T0, e)
    } else if e < 13.228 {
        horner(&R_TYPE_T1, e)
    } else if e < 19.739 {
        horner(&R_TYPE_T2, e)
    } else {
        horner(&R_TYPE_T3, e)
    }
}

#[test]
fn type_r_e_is_the_polynomial_of_its_stretch() {
    let mut points = grid(-50.0, 1768.1, 20_000);
    points.push(1064.18);
    points.push(f64::from_bits((1064.18_f64).to_bits() + 1));
    points.push(1664.5);
    points.push(f64::from_bits((1664.5_f64).to_bits() + 1));
    for t in points {
        assert!(r_type::e_in_range(Celsius(t.to_bits())));
        let ours = r_type::e(Celsius(t.to_bits()));
        assert_eq!(ours.0, native_r_e(t).to_bits(), "at {}", t);
    }
}

#[test]
fn type_r_t_is_the_polynomial_of_its_stretch() {
    let mut points = grid(-0.226, 21.103, 20_000);
    points.push(1.923);
    points.push(f64::from_bits((1.923_f64).to_bits() - 1));
    points.push(13.228);
    points.push(f64::from_bits((13.228_f64).to_bits() - 1));
    points.push(19.739);
    points.push(f64::from_bits((19.739_f64).to_bits() - 1));
    for e in points {
        assert!(r_type::t_in_range(Millivolts(e.to_bits())));
        let ours = r_type::t(Millivolts(e.to_bits()));
        assert_eq!(ours.0, native_r_t(e).to_bits(), "at {}", e);
    }
}

#[test]
fn type_r_extrapolates_with_the_nearest_stretch() {
    for t in [-50.0_f64 - 40.0, 1768.1 + 250.0, 1.0e6, -1.0e6] {
        let ours = r_type::e_extrapolated(Celsius(t.to_bits()));
        assert_eq!(ours.0, native_r_e(t).to_bits(), "at {}", t);
    }
    for e in [-0.226_f64 - 3.0, 21.103 + 10.0, 1.0e3, -1.0e3] {
        let ours = r_type::t_extrapolated(Millivolts(e.to_bits()));
        assert_eq!(ours.0, native_r_t(e).to_bits(), "at {}", e);
    }
}

#[test]
fn type_s_tables_hold_the_published_coefficients() {
    same(&s_type::S_TYPE_E_BELOW_1064_18, &S_TYPE_E_BELOW_1064_18);
    same(&s_type::S_TYPE_E_ABOVE_1064_18_BELOW_1664_5, &S_TYPE_E_ABOVE_1064_18_BELOW_1664_5);
    same(&s_type::S_TYPE_E_ABOVE_1664_5, &S_TYPE_E_ABOVE_1664_5);
    same(&s_type::S_TYPE_T0, &S_TYPE_T0);
    same(&s_type::S_TYPE_T1, &S_TYPE_T1);
    same(&s_type::S_TYPE_T2, &S_TYPE_T2);
    same(&s_type::S_TYPE_T3, &S_TYPE_T3);
    assert_eq!(s_type::LOWEST_TEMPERATURE, (-50.0_f64).to_bits());
    assert_eq!(s_type::HIGHEST_TEMPERATURE, (1768.1_f64).to_bits());
    assert_eq!(s_type::E_BREAK_0, (1064.18_f64).to_bits());
    assert_eq!(s_type::E_BREAK_1, (1664.5_f64).to_bits());
    assert_eq!(s_type::LOWEST_VOLTAGE, (-0.235_f64 - 0.00056_f64).to_bits());
    assert_eq!(s_type::HIGHEST_VOLTAGE, (18.693_f64 + 0.00056_f64).to_bits());
    assert_eq!(s_type::T_BREAK_0, (1.874_f64).to_bits());
    assert_eq!(s_type::T_BREAK_1, (11.950_f64).to_bits());
    assert_eq!(s_type::T_BREAK_2, (17.536_f64).to_bits());
}

fn native_s_e(t: f64) -> f64 {
    if !(t > 1064.18) {
        horner(&S_TYPE_E_BELOW_1064_18, t)
    } else if !(t > 1664.5) {
        horner(&S_TYPE_E_ABOVE_1064_18_BELOW_1664_5, t)
    } else {
        horner(&S_TYPE_E_ABOVE_1664_5, t)
    }
}

fn native_s_t(e: f64) -> f64 {
    if e < 1.874 {
        horner(&S_TYPE_T0, e)
    } else if e < 11.950 {
        horner(&S_TYPE_T1, e)
    } else if e < 17.536 {
        horner(&S_TYPE_T2, e)
    } else {
        horner(&S_TYPE_T3, e)
    }
}

#[test]
fn type_s_e_is_the_polynomial_of_its_stretch() {
    let mut points = grid(-50.0, 1768.1, 20_000);
    points.push(1064.18);
    points.push(f64::from_bits((1064.18_f64).to_bits() + 1));
    points.push(1664.5);
    points.push(f64::from_bits((1664.5_f64).to_bits() + 1));
    for t in points {
        assert!(s_type::e_in_range(Celsius(t.to_bits())));
        let ours = s_type::e(Celsius(t.to_bits()));
        assert_eq!(ours.0, native_s_e(t).to_bits(), "at {}", t);
    }
}

#[test]
fn type_s_t_is_the_polynomial_of_its_stretch() {
    let mut points = grid(-0.235, 18.693, 20_000);
    points.push(1.874);
    points.push(f64::from_bits((1.874_f64).to_bits() - 1));
    points.push(11.950);
    points.push(f64::from_bits((11.950_f64).to_bits() - 1));
    points.push(17.536);
    points.push(f64::from_bits((17.536_f64).to_bits() - 1));
    for e in points {
        assert!(s_type::t_in_range(Millivolts(e.to_bits())));
        let ours = s_type::t(Millivolts(e.to_bits()));
        assert_eq!(ours.0, native_s_t(e).to_bits(), "at {}", e);
    }
}

#[test]
fn type_s_extrapolates_with_the_nearest_stretch() {
    for t in [-50.0_f64 - 40.0, 1768.1 + 250.0, 1.0e6, -1.0e6] {
        let ours = s_type::e_extrapolated(Celsius(t.to_bits()));
        assert_eq!(ours.0, native_s_e(t).to_bits(), "at {}", t);
    }
    for e in [-0.235_f64 - 3.0, 18.693 + 10.0, 1.0e3, -1.0e3] {
        let ours = s_type::t_extrapolated(Millivolts(e.to_bits()));
        assert_eq!(ours.0, native_s_t(e).to_bits(), "at {}", e);
    }
}

#[test]
fn type_t_tables_hold_the_published_coefficients() {
    same(&t_type::T_TYPE_E_BELOW_0, &T_TYPE_E_BELOW_0);
    same(&t_type::T_TYPE_E_ABOVE_0, &T_TYPE_E_ABOVE_0);
    same(&t_type::T_TYPE_T0, &T_TYPE_T0);
    same(&t_type::T_TYPE_T1, &T_TYPE_T1);
    assert_eq!(t_type::LOWEST_TEMPERATURE, (-270.0_f64).to_bits());
    assert_eq!(t_type::HIGHEST_TEMPERATURE, (400.0_f64).to_bits());
    assert_eq!(t_type::E_BREAK_0, (0.0_f64).to_bits());
    assert_eq!(t_type::LOWEST_VOLTAGE, (-5.603_f64 - 0.0005_f64).to_bits());
    assert_eq!(t_type::HIGHEST_VOLTAGE, (20.872_f64 + 0.0005_f64).to_bits());
    assert_eq!(t_type::T_BREAK_0, (0.0_f64).to_bits());
}

fn native_t_e(t: f64) -> f64 {
    if !(t > 0.0) {
        horner(&T_TYPE_E_BELOW_0, t)
    } else {
        horner(&T_TYPE_E_ABOVE_0, t)
    }
}

fn native_t_t(e: f64) -> f64 {
    if e < 0.0 {
        horner(&T_TYPE_T0, e)
    } else {
        horner(&T_TYPE_T1, e)
    }
}

#[test]
fn type_t_e_is_the_polynomial_of_its_stretch() {
    let mut points = grid(-270.0, 400.0, 20_000);
    points.push(0.0);
    points.push(f64::from_bits(1));
    for t in points {
        assert!(t_type::e_in_range(Celsius(t.to_bits())));
        let ours = t_type::e(Celsius(t.to_bits()));
        assert_eq!(ours.0, native_t_e(t).to_bits(), "at {}", t);
    }
}

#[test]
fn type_t_t_is_the_polynomial_of_its_stretch() {
    let mut points = grid(-5.603, 20.872, 20_000);
    points.push(0.0);
    points.push(-f64::from_bits(1));
    points.push(-0.0);
    for e in points {
        assert!(t_type::t_in_range(Millivolts(e.to_bits())));
        let ours = t_type::t(Millivolts(e.to_bits()));
        assert_eq!(ours.0, native_t_t(e).to_bits(), "at {}", e);
    }
}

#[test]
fn type_t_extrapolates_with_the_nearest_stretch() {
    for t in [-270.0_f64 - 40.0, 400.0 + 250.0, 1.0e6, -1.0e6] {
        let ours = t_type::e_extrapolated(Celsius(t.to_bits()));
        assert_eq!(ours.0, native_t_e(t).to_bits(), "at {}", t);
    }
    for e in [-5.603_f64 - 3.0, 20.872 + 10.0, 1.0e3, -1.0e3] {
        let ours = t_type::t_extrapolated(Millivolts(e.to_bits()));
        assert_eq!(ours.0, native_t_t(e).to_bits(), "at {}", e);
    }
}
