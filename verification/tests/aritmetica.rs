use exchange_ledger::aritmetica::{cantidad_de_mayores, cantidad_en_rango, cantidad_impares, es_par,
    es_primo, multiplicar_valores, reemplazar_pares, suma_pares};

#[test]
fn test_es_par() {
    let n = 4;
    assert!(es_par(n));
}

#[test]
fn test_numero_primo() {
    let numero = 4;

    assert!(es_primo(numero));
}

#[test]
fn test_suma_pares() {
    let array = [2, 4, 6, 8, 10];
    let resul = suma_pares(&array);

    assert_eq!(resul, 30);
}

#[test]
fn test_cantidad_impares() {
    let array = [1, 2, 3, 4, 5];
    let resul = cantidad_impares(&array);

    assert_eq!(resul, 3);
}

#[test]
fn test_cantidad_mayores() {
    let arreglo = [5, 8, 2, 20, 4];
    let limite = 7;

    let resul = cantidad_de_mayores(&arreglo, limite);

    assert_eq!(resul, 2);
}

#[test]
fn test_rango() {
    let arreglo = [1, 5, 9, 0, 3, 2];
    let resul = cantidad_en_rango(&arreglo, 3, 7);

    assert_eq!(resul, 2);
}

#[test]
fn test_rango_limites_iguales() {
    let arreglo = [1, 5, 9, 0, 3, 2];
    let resul = cantidad_en_rango(&arreglo, 3, 3);

    assert_eq!(resul, 1);
}

#[test]
fn test_rango_limites_invertidos() {
    let arreglo = [1, 5, 9, 0, 3, 2];
    let resul = cantidad_en_rango(&arreglo, 3, 1);

    assert_eq!(resul, 0);
}

#[test]
fn test_multiplicar_valores() {
    let mut array = vec![2, 4, 6, 8];

    multiplicar_valores(&mut array, 4);

    assert_eq!(array[2], 24);
}

#[test]
fn test_multiplicar_por_cero() {
    let mut array = vec![2, 4, 6, 8];

    multiplicar_valores(&mut array, 0);

    assert_eq!(array, [0, 0, 0, 0]);
}

#[test]
fn test_multiplicar_por_negativo() {
    let mut array = vec![2, 4, 6, 8];

    multiplicar_valores(&mut array, -1);

    assert_eq!(array, [-2, -4, -6, -8]);
}

#[test]
fn test_reemplazar_pares() {
    let mut enteros = vec![1, 2, 3, 4, 5];
    reemplazar_pares(&mut enteros);

    assert_eq!(enteros, [1, -1, 3, -1, 5]);
}

#[test]
fn test_reemplazar_pares_todos_pares() {
    let mut enteros = vec![2, 4, 6, 8];
    reemplazar_pares(&mut enteros);

    assert_eq!(enteros, [-1, -1, -1, -1]);
}

#[test]
fn test_reemplazar_pares_todos_impares() {
    let mut enteros = vec![1, 3, 5, 7];
    reemplazar_pares(&mut enteros);

    assert_eq!(enteros, [1, 3, 5, 7]);
}

#[test]
fn test_es_par_negativo() {
    assert!(es_par(-6));
    assert!(!es_par(-7));
}

#[test]
fn test_primo_grande() {
    assert!(es_primo(577));
    assert!(!es_primo(600));
}

#[test]
fn test_suma_pares_vacio() {
    let array: [i32; 0] = [];
    assert_eq!(suma_pares(&array), 0);
}
