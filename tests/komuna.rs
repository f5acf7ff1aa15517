use smaragdina::kodado::MalkodEraro;
use smaragdina::komuna::{cxifrado_el, ekstrakti, ensxipigxi, ensxipigxi_bajtojn, Eraro};
use smaragdina::sekreto::{self, Dosiero, Sekreto};

fn kovrilo(n: usize) -> Vec<[u8; 4]> {
    (0..n).map(|i| [(i * 7) as u8, (i * 13) as u8, (i * 31) as u8, 255]).collect()
}

fn a_txt() -> Dosiero {
    Dosiero { nomo: "a.txt".to_string(), enhavo: b"hi".to_vec() }
}

fn bezonataj(cxifrado: Option<(&str, &str)>) -> usize {
    let s = match cxifrado {
        Some((h, p)) => Sekreto::cxifrata(h, p, &a_txt()).unwrap(),
        None => Sekreto::klara(a_txt()),
    };
    8 + s.kodi().len()
}

fn cxifrado() -> Option<(String, String)> {
    Some(("pet name".to_string(), "secret1".to_string()))
}

#[test]
fn end_to_end_plain() {
    let n = bezonataj(None);
    assert_eq!(n, 8 + 10);
    let mut p = kovrilo(n + 5);
    let antaux = p.clone();
    ensxipigxi(&mut p, a_txt(), None).unwrap();
    assert_eq!(&p[n..], &antaux[n..]);
    for i in 0..n {
        for c in 0..4 {
            assert_eq!(p[i][c] & 0xFC, antaux[i][c] & 0xFC);
        }
    }
    let d = ekstrakti(&p, None).unwrap();
    assert_eq!(d.nomo, "a.txt");
    assert_eq!(d.enhavo, b"hi");
}

#[test]
fn end_to_end_encrypted() {
    let n = bezonataj(Some(("pet name", "secret1")));
    let mut p = kovrilo(n);
    ensxipigxi(&mut p, a_txt(), cxifrado()).unwrap();
    let d = ekstrakti(&p, Some("secret1".to_string())).unwrap();
    assert_eq!(d.nomo, "a.txt");
    assert_eq!(d.enhavo, b"hi");
    match ekstrakti(&p, None) {
        Err(Eraro::Sekreto(sekreto::Eraro::SekretoFrazo(h))) => assert_eq!(h, "pet name"),
        other => panic!("unexpected: {:?}", other),
    }
    assert!(matches!(
        ekstrakti(&p, Some("wrong".to_string())),
        Err(Eraro::Sekreto(sekreto::Eraro::Cxifrado))
    ));
}

#[test]
fn capacity_boundary() {
    let n = bezonataj(None);
    let mut p = kovrilo(n);
    assert!(ensxipigxi(&mut p, a_txt(), None).is_ok());
    let mut q = kovrilo(n - 1);
    let antaux = q.clone();
    assert!(matches!(ensxipigxi(&mut q, a_txt(), None), Err(Eraro::Kapacito)));
    assert_eq!(q, antaux);
    let n = bezonataj(Some(("pet name", "secret1")));
    let mut q = kovrilo(n - 1);
    assert!(matches!(ensxipigxi(&mut q, a_txt(), cxifrado()), Err(Eraro::Kapacito)));
    let mut p = kovrilo(n);
    assert!(ensxipigxi(&mut p, a_txt(), cxifrado()).is_ok());
}

#[test]
fn write_bytes_into_pixels() {
    let mut p = vec![[0u8; 4]; 3];
    ensxipigxi_bajtojn(&mut p, &[0xFF, 0x01]).unwrap();
    assert_eq!(p, vec![[3, 3, 3, 3], [0, 0, 0, 1], [0, 0, 0, 0]]);
    assert!(matches!(ensxipigxi_bajtojn(&mut p, &[1, 2, 3, 4]), Err(Eraro::Kapacito)));
}

#[test]
fn length_prefix_is_little_endian() {
    let mut p = vec![[0u8; 4]; 40];
    ensxipigxi(&mut p, a_txt(), None).unwrap();
    let prefikso: Vec<u8> = p[..8].iter().map(|q| smaragdina::servajxoj::decxifri_bajton(*q)).collect();
    assert_eq!(prefikso, vec![10, 0, 0, 0, 0, 0, 0, 0]);
}

#[test]
fn non_stego_image_gives_reading_error() {
    let p = vec![[0u8; 4]; 64];
    assert!(matches!(
        ekstrakti(&p, None),
        Err(Eraro::Sekreto(sekreto::Eraro::Malkodado(MalkodEraro::Trancxita)))
    ));
    let p: Vec<[u8; 4]> = (0..1000usize).map(|i| [(i * 97) as u8, (i * 57) as u8, (i * 11) as u8, (i * 3) as u8]).collect();
    assert!(matches!(ekstrakti(&p, None), Err(Eraro::Sekreto(sekreto::Eraro::Malkodado(_)))));
    let p = vec![[255u8; 4]; 64];
    assert!(matches!(ekstrakti(&p, None), Err(Eraro::Sekreto(sekreto::Eraro::Malkodado(_)))));
}

#[test]
fn tiny_image_gives_reading_error() {
    let p = vec![[0u8; 4]; 7];
    assert!(matches!(
        ekstrakti(&p, None),
        Err(Eraro::Sekreto(sekreto::Eraro::Malkodado(MalkodEraro::Trancxita)))
    ));
}

#[test]
fn embed_options() {
    assert_eq!(cxifrado_el(None, None), Some(None));
    assert_eq!(
        cxifrado_el(None, Some("secret1".to_string())),
        Some(Some((String::new(), "secret1".to_string())))
    );
    assert_eq!(cxifrado_el(Some("pet name".to_string()), None), None);
    assert_eq!(
        cxifrado_el(Some("pet name".to_string()), Some("secret1".to_string())),
        Some(Some(("pet name".to_string(), "secret1".to_string())))
    );
}

#[test]
fn body_shorter_than_prefix_gives_reading_error() {
    let n = bezonataj(None);
    let mut p = kovrilo(n);
    ensxipigxi(&mut p, a_txt(), None).unwrap();
    assert!(ekstrakti(&p, None).is_ok());
    assert!(matches!(
        ekstrakti(&p[..n - 1], None),
        Err(Eraro::Sekreto(sekreto::Eraro::Malkodado(MalkodEraro::Trancxita)))
    ));
}

#[test]
fn prefix_claiming_too_much_gives_reading_error() {
    let mut p = vec![[0u8; 4]; 30];
    let mut b = vec![200u8, 0, 0, 0, 0, 0, 0, 0];
    b.extend(Sekreto::klara(a_txt()).kodi());
    ensxipigxi_bajtojn(&mut p, &b).unwrap();
    assert!(matches!(
        ekstrakti(&p, None),
        Err(Eraro::Sekreto(sekreto::Eraro::Malkodado(MalkodEraro::Trancxita)))
    ));
}
