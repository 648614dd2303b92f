use exchange_ledger::fecha::Fecha;
use exchange_ledger::veterinaria::{Animales, Atencion, Duenio, Mascota, Veterinaria};

#[test]
fn ej09_test_veterinaria_vacia() {
    let mut veterinaria = Veterinaria::new("Veterinaria".to_string(), "Direccion".to_string(), 5);
    let m1 = Mascota::new(
        "Mascota".to_string(),
        10,
        Animales::Perro,
        Duenio::new(
            "Duenio".to_string(),
            "Direccion duenio".to_string(),
            "Telefono".to_string(),
        ),
    );

    let at1 = Atencion::new(
        m1,
        "Diagnostico".to_string(),
        "Tratamiento".to_string(),
        None,
    );

    assert!(veterinaria.atender_mascota().is_none());

    assert!(veterinaria
        .buscar_atencion(
            &"Mascota".to_string(),
            &"Duenio".to_string(),
            &"Telefono".to_string(),
        )
        .is_none());

    assert!(!veterinaria.modificar_diagnostico(&at1, "Nuevo Diagnostico".to_string()));
    assert!(!veterinaria.modificar_fecha_visita(&at1, Some(Fecha::new(5, 4, 2008))));
    assert!(!veterinaria.eliminar_atencion(&at1));
}

#[test]
fn ej09_test_veterinaria_registrar_mascotas() {
    let mut veterinaria = Veterinaria::new("Veterinaria".to_string(), "Direccion".to_string(), 5);

    let m2 = Mascota::new(
        "Mascota2".to_string(),
        15,
        Animales::Gato,
        Duenio::new(
            "Duenio2".to_string(),
            "Direccion duenio2".to_string(),
            "Telefono2".to_string(),
        ),
    );

    let mut v = vec![
        Mascota::new(
            "Mascota1".to_string(),
            10,
            Animales::Perro,
            Duenio::new(
                "Duenio1".to_string(),
                "Direccion duenio1".to_string(),
                "Telefono1".to_string(),
            ),
        ),
        Mascota::new(
            "Mascota2".to_string(),
            15,
            Animales::Gato,
            Duenio::new(
                "Duenio2".to_string(),
                "Direccion duenio2".to_string(),
                "Telefono2".to_string(),
            ),
        ),
        Mascota::new(
            "Mascota3".to_string(),
            4,
            Animales::Otros,
            Duenio::new(
                "Duenio3".to_string(),
                "Direccion duenio3".to_string(),
                "Telefono3".to_string(),
            ),
        ),
    ];

    veterinaria.agregar_mascota_prioritaria(v.pop().unwrap());
    veterinaria.agregar_mascota(v.pop().unwrap());
    veterinaria.agregar_mascota(v.pop().unwrap());

    // Comprueba cola de atencion y que se haya otorgado la prioridad
    assert_eq!(veterinaria.cola_atencion.len(), 3);
    assert_eq!(
        veterinaria.cola_atencion.front().unwrap().nombre,
        "Mascota3"
    );

    assert_eq!(veterinaria.atender_mascota().unwrap().nombre, "Mascota3");
    assert!(veterinaria.retirar_mascota(&m2));
}

#[test]
fn ej09_test_registrar_atenciones() {
    let mut veterinaria = Veterinaria::new("Veterinaria".to_string(), "Direccion".to_string(), 5);

    let m3 = Mascota::new(
        "Mascota3".to_string(),
        4,
        Animales::Otros,
        Duenio::new(
            "Duenio3".to_string(),
            "Direccion duenio3".to_string(),
            "Telefono3".to_string(),
        ),
    );

    let m3_copy = Mascota::new(
        "Mascota3".to_string(),
        4,
        Animales::Otros,
        Duenio::new(
            "Duenio3".to_string(),
            "Direccion duenio3".to_string(),
            "Telefono3".to_string(),
        ),
    );

    let mut at1 = Atencion::new(
        m3,
        "Diagnostico".to_string(),
        "Tratamiento".to_string(),
        Some(Fecha::new(29, 2, 2020)),
    );

    veterinaria.registrar_atencion(Atencion::new(
        m3_copy,
        "Diagnostico".to_string(),
        "Tratamiento".to_string(),
        Some(Fecha::new(29, 2, 2020)),
    ));

    assert!(veterinaria
        .registro_atencion
        .first()
        .unwrap()
        .prox_visita
        .as_ref()
        .is_some_and(|f| f.eq(&Fecha::new(29, 2, 2020))));

    assert!(veterinaria
        .buscar_atencion(
            &"Mascota3".to_string(),
            &"Duenio3".to_string(),
            &"Telefono3".to_string()
        )
        .is_some_and(|f| f.eq(&at1)));

    assert!(veterinaria.modificar_fecha_visita(&at1, Some(Fecha::new(1, 2, 2000))));

    at1.set_prox_fecha(Some(Fecha::new(1, 2, 2000)));

    assert!(veterinaria.modificar_diagnostico(&at1, "Nuevo diagnostico".to_string()));
    assert_eq!(
        veterinaria.registro_atencion.first().unwrap().diagnostico,
        "Nuevo diagnostico"
    );

    assert!(!veterinaria.eliminar_atencion(&at1));
    at1.set_diagnostico("Nuevo diagnostico".to_string());
    assert!(veterinaria.eliminar_atencion(&at1));
}
