use ue_object_reader::parser::ast::{
    CustomProp, CustomPropValue, DoubleLit, LinkedTo, Prop, PropValue, Uuid,
};
use ue_object_reader::parser::prop::{prop_custom_props, prop_kv};

fn cv(s: &str) -> Vec<char> {
    s.chars().collect()
}

fn rem(s: &str, q: usize) -> String {
    s.chars().skip(q).collect()
}

fn uuid_of(v: u128) -> Uuid {
    Uuid { value: v }
}

fn double_value(d: &DoubleLit) -> f64 {
    let mut r = d.int_abs as f64;
    for (i, dig) in d.frac.iter().enumerate() {
        r += (*dig as f64) / 10f64.powf((i + 1) as f64);
    }
    if d.negative {
        -r
    } else {
        r
    }
}

#[test]
fn parse_custom_props() {
    let sample = r#"CustomProperties Pin (PinId=F6D0DA4A4AA531533341018A20422309,PinName="self",PinFriendlyName=NSLOCTEXT("K2Node", "Target", "Target"),PinType.PinCategory="object",PinType.PinSubCategory="",PinType.PinSubCategoryObject=Class'"/Script/UMG.Button"',PinType.PinSubCategoryMemberReference=(),PinType.ContainerType=None,PinType.bIsReference=True,LinkedTo=(K2Node_VariableGet_17 570BAD4542CBB0285413EEAB4F6DBDDA,),PersistentGuid=00000000000000000000000000000000,bOrphanedPin=False,)"#;
    let (q, v) = prop_custom_props(&cv(sample), 0).unwrap();
    assert_eq!(rem(sample, q), "");
    assert_eq!(
        v,
        CustomProp {
            domain: "Pin".to_string(),
            value: CustomPropValue::Pin(vec![
                Prop {
                    key: "PinId".to_owned(),
                    value: PropValue::Uuid(uuid_of(0xF6D0DA4A4AA531533341018A20422309)),
                },
                Prop {
                    key: "PinName".to_owned(),
                    value: PropValue::String("self".to_owned()),
                },
                Prop {
                    key: "PinFriendlyName".to_owned(),
                    value: PropValue::NslocText(
                        "K2Node".to_owned(),
                        "Target".to_owned(),
                        "Target".to_owned()
                    ),
                },
                Prop {
                    key: "PinType.PinCategory".to_owned(),
                    value: PropValue::String("object".to_owned()),
                },
                Prop {
                    key: "PinType.PinSubCategory".to_owned(),
                    value: PropValue::String("".to_owned()),
                },
                Prop {
                    key: "PinType.PinSubCategoryObject".to_owned(),
                    value: PropValue::ObjectReference(
                        "Class".to_owned(),
                        "/Script/UMG.Button".to_owned()
                    ),
                },
                Prop {
                    key: "PinType.PinSubCategoryMemberReference".to_owned(),
                    value: PropValue::PropList(Vec::new()),
                },
                Prop {
                    key: "PinType.ContainerType".to_owned(),
                    value: PropValue::ObjectReference("None".to_owned(), "None".to_owned()),
                },
                Prop {
                    key: "PinType.bIsReference".to_owned(),
                    value: PropValue::Boolean(true),
                },
                Prop {
                    key: "LinkedTo".to_owned(),
                    value: PropValue::LinkedToList(vec![LinkedTo {
                        name: "K2Node_VariableGet_17".to_owned(),
                        uuid: uuid_of(0x570BAD4542CBB0285413EEAB4F6DBDDA),
                    }]),
                },
                Prop {
                    key: "PersistentGuid".to_owned(),
                    value: PropValue::Uuid(uuid_of(0x00000000000000000000000000000000)),
                },
                Prop {
                    key: "bOrphanedPin".to_owned(),
                    value: PropValue::Boolean(false),
                },
            ]),
        }
    );
}

#[test]
fn prop_parse_prop_kv_integer() {
    let input = "NodePosX=1088";
    let (q, v) = prop_kv(&cv(input), 0).unwrap();
    assert_eq!(rem(input, q), "");
    assert_eq!(
        v,
        Prop { key: "NodePosX".to_string(), value: PropValue::Integer(1088) }
    );
    let input = "Node.PosX=1088";
    let (q, v) = prop_kv(&cv(input), 0).unwrap();
    assert_eq!(rem(input, q), "");
    assert_eq!(
        v,
        Prop { key: "Node.PosX".to_string(), value: PropValue::Integer(1088) }
    );
    let input = "NodePosY=-23088";
    let (q, v) = prop_kv(&cv(input), 0).unwrap();
    assert_eq!(rem(input, q), "");
    assert_eq!(
        v,
        Prop { key: "NodePosY".to_string(), value: PropValue::Integer(-23088) }
    );
    let input = " \t  NodePosY  = \t-192314 \t  ";
    let (q, v) = prop_kv(&cv(input), 0).unwrap();
    assert_eq!(rem(input, q), " \t  ");
    assert_eq!(
        v,
        Prop { key: "NodePosY".to_string(), value: PropValue::Integer(-192314) }
    );
}

#[test]
fn prop_parse_prop_kv_boolean() {
    let input = "bSelfContext=True";
    let (q, v) = prop_kv(&cv(input), 0).unwrap();
    assert_eq!(rem(input, q), "");
    assert_eq!(
        v,
        Prop { key: "bSelfContext".to_string(), value: PropValue::Boolean(true) }
    );
    let input = "bSelfContext=False";
    let (q, v) = prop_kv(&cv(input), 0).unwrap();
    assert_eq!(rem(input, q), "");
    assert_eq!(
        v,
        Prop { key: "bSelfContext".to_string(), value: PropValue::Boolean(false) }
    );
}

#[test]
fn prop_parse_prop_kv_double() {
    let input = "X=-560.123400";
    let (q, p) = prop_kv(&cv(input), 0).unwrap();
    assert_eq!(rem(input, q), "");
    assert_eq!(p.key, "X".to_owned());
    let got = match p.value {
        PropValue::Double(d) => double_value(&d),
        _ => 0.0,
    };
    assert!((got - (-560.123400f64)).abs() < 1.0e-6);
}

#[test]
fn prop_parse_prop_kv_uuid() {
    let input = "NodeGuid=72D31250462697EE90B27CBFC0957A6D";
    let (q, v) = prop_kv(&cv(input), 0).unwrap();
    assert_eq!(rem(input, q), "");
    assert_eq!(
        v,
        Prop {
            key: "NodeGuid".to_string(),
            value: PropValue::Uuid(uuid_of(0x72D31250462697EE90B27CBFC0957A6D)),
        }
    );
}

#[test]
fn prop_parse_prop_kv_string() {
    let input = "NodeComment=\"\"";
    let (q, v) = prop_kv(&cv(input), 0).unwrap();
    assert_eq!(rem(input, q), "");
    assert_eq!(
        v,
        Prop { key: "NodeComment".to_string(), value: PropValue::String("".to_string()) }
    );
    let input = "NodeComment=\"Mouse input\"";
    let (q, v) = prop_kv(&cv(input), 0).unwrap();
    assert_eq!(rem(input, q), "");
    assert_eq!(
        v,
        Prop {
            key: "NodeComment".to_string(),
            value: PropValue::String("Mouse input".to_string()),
        }
    );
}

#[test]
fn prop_parse_prop_kv_class() {
    let input = r#"PinType.PinSubCategoryObject=Class'"/Script/Engine.GameplayStatics"'"#;
    let (q, v) = prop_kv(&cv(input), 0).unwrap();
    assert_eq!(rem(input, q), "");
    assert_eq!(
        v,
        Prop {
            key: "PinType.PinSubCategoryObject".to_string(),
            value: PropValue::ObjectReference(
                "Class".to_string(),
                "/Script/Engine.GameplayStatics".to_string()
            ),
        }
    );
    let input = r#"PinType.PinSubCategoryObject=None"#;
    let (q, v) = prop_kv(&cv(input), 0).unwrap();
    assert_eq!(rem(input, q), "");
    assert_eq!(
        v,
        Prop {
            key: "PinType.PinSubCategoryObject".to_string(),
            value: PropValue::ObjectReference("None".to_string(), "None".to_string()),
        }
    );
}

#[test]
fn prop_parse_prop_kv_nsloctext() {
    let input = r#"PinFriendlyName=NSLOCTEXT("K2Node", "Target", "Target")"#;
    let (q, v) = prop_kv(&cv(input), 0).unwrap();
    assert_eq!(rem(input, q), "");
    assert_eq!(
        v,
        Prop {
            key: "PinFriendlyName".to_string(),
            value: PropValue::NslocText(
                "K2Node".to_string(),
                "Target".to_string(),
                "Target".to_string()
            ),
        }
    );
    let input = "NodeComment=\"Mouse input\"";
    let (q, v) = prop_kv(&cv(input), 0).unwrap();
    assert_eq!(rem(input, q), "");
    assert_eq!(
        v,
        Prop {
            key: "NodeComment".to_string(),
            value: PropValue::String("Mouse input".to_string()),
        }
    );
}

#[test]
fn prop_parse_prop_kv_proplist() {
    let input = r#"VariableReference=(MemberName="CharacterMovement",bSelfContext=True)"#;
    let (q, v) = prop_kv(&cv(input), 0).unwrap();
    assert_eq!(rem(input, q), "");
    assert_eq!(
        v,
        Prop {
            key: "VariableReference".to_string(),
            value: PropValue::PropList(vec![
                Prop {
                    key: "MemberName".to_owned(),
                    value: PropValue::String("CharacterMovement".to_owned()),
                },
                Prop {
                    key: "bSelfContext".to_owned(),
                    value: PropValue::Boolean(true),
                },
            ]),
        }
    );
}
