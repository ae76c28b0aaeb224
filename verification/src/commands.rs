//! The console's commands: each has a name, the id of the packet it sends, a
//! description, the category it is listed under and the kind of argument it
//! takes.

use vstd::prelude::*;

verus! {

/// The groups in which commands are listed.
#[derive(Debug, Clone, Copy, PartialEq, Eq, Hash, Structural)]
pub enum Category {
    Graphics,
    Utility,
    Cheats,
    Gameplay,
}

/// The caption under which a category is shown.
pub open spec fn category_label(c: Category) -> Seq<char> {
    match c {
        Category::Graphics => "🎨 图形"@,
        Category::Utility => "🔧 工具"@,
        Category::Cheats => "⚔ 作弊"@,
        Category::Gameplay => "🎮 游戏性"@,
    }
}

/// The categories in the order in which they are listed.
pub open spec fn category_order() -> Seq<Category> {
    seq![Category::Graphics, Category::Utility, Category::Cheats, Category::Gameplay]
}

impl Category {
    pub fn label(&self) -> (r: &'static str)
        ensures
            r@ == category_label(*self),
    {
        match self {
            Category::Graphics => "🎨 图形",
            Category::Utility => "🔧 工具",
            Category::Cheats => "⚔ 作弊",
            Category::Gameplay => "🎮 游戏性",
        }
    }

    pub fn all() -> (r: &'static [Category])
        ensures
            r@ == category_order(),
    {
        &[Category::Graphics, Category::Utility, Category::Cheats, Category::Gameplay]
    }
}

/// The kind of argument a command takes.
#[derive(Debug, Clone, Copy, PartialEq, Eq, Structural)]
pub enum ParamType {
    /// No argument: the packet carries only its id.
    Response,
    /// An on/off flag.
    Bool,
    /// A floating-point value.
    Float,
    /// An unsigned integer.
    Int,
    /// Three floating-point values (x, y, z).
    Vector3F,
    /// A time of day.
    SetTime,
    /// An actor's name and how many to spawn.
    Actor,
}

/// One command of the console.
#[derive(Debug, Clone, Copy)]
pub struct CommandDef {
    pub name: &'static str,
    pub packet_id: i32,
    pub description: &'static str,
    pub category: Category,
    pub param_type: ParamType,
}

/// Every command, in the order in which the console lists them.
pub open spec fn command_table() -> Seq<CommandDef> {
    seq![
        CommandDef {
            name: "fps",
            packet_id: 40,
            description: "调整 FPS 上限",
            category: Category::Graphics,
            param_type: ParamType::Float,
        },
        CommandDef {
            name: "fov",
            packet_id: 41,
            description: "调整视野 (FOV)",
            category: Category::Graphics,
            param_type: ParamType::Float,
        },
        CommandDef {
            name: "shadow",
            packet_id: 43,
            description: "调整阴影质量",
            category: Category::Graphics,
            param_type: ParamType::Int,
        },
        CommandDef {
            name: "resolution",
            packet_id: 44,
            description: "调整分辨率",
            category: Category::Graphics,
            param_type: ParamType::Vector3F,
        },
        CommandDef {
            name: "settime",
            packet_id: -1i32,
            description: "设置当前时间 (day/dawn/night/dusk 或 HH:MM)",
            category: Category::Graphics,
            param_type: ParamType::SetTime,
        },
        CommandDef {
            name: "timespeed",
            packet_id: 21,
            description: "设置时间流速",
            category: Category::Graphics,
            param_type: ParamType::Float,
        },
        CommandDef {
            name: "changeweather",
            packet_id: 25,
            description: "更改天气（随机）",
            category: Category::Graphics,
            param_type: ParamType::Bool,
        },
        CommandDef {
            name: "hideui",
            packet_id: 51,
            description: "切换 UI 显示/隐藏",
            category: Category::Graphics,
            param_type: ParamType::Response,
        },
        CommandDef {
            name: "firstperson",
            packet_id: 52,
            description: "切换第一人称视角",
            category: Category::Graphics,
            param_type: ParamType::Response,
        },
        CommandDef {
            name: "benchmark",
            packet_id: 63,
            description: "运行基准测试",
            category: Category::Graphics,
            param_type: ParamType::Response,
        },
        CommandDef {
            name: "spawn",
            packet_id: 1,
            description: "生成 Actor（输入 \"random\" 随机生成敌人）",
            category: Category::Utility,
            param_type: ParamType::Actor,
        },
        CommandDef {
            name: "tp",
            packet_id: 10,
            description: "传送玩家到指定坐标 (X Y Z)",
            category: Category::Utility,
            param_type: ParamType::Vector3F,
        },
        CommandDef {
            name: "cords",
            packet_id: 11,
            description: "获取玩家当前坐标",
            category: Category::Utility,
            param_type: ParamType::Response,
        },
        CommandDef {
            name: "gettime",
            packet_id: 24,
            description: "获取当前游戏时间",
            category: Category::Utility,
            param_type: ParamType::Bool,
        },
        CommandDef {
            name: "pause",
            packet_id: 23,
            description: "暂停游戏（自由镜头仍可移动）",
            category: Category::Utility,
            param_type: ParamType::Bool,
        },
        CommandDef {
            name: "freecam",
            packet_id: 50,
            description: "切换自由镜头",
            category: Category::Utility,
            param_type: ParamType::Response,
        },
        CommandDef {
            name: "idleanimation",
            packet_id: 53,
            description: "切换自拍相机的待机动画",
            category: Category::Utility,
            param_type: ParamType::Response,
        },
        CommandDef {
            name: "savesequence",
            packet_id: 60,
            description: "保存当前镜头序列",
            category: Category::Utility,
            param_type: ParamType::Response,
        },
        CommandDef {
            name: "loadsequence",
            packet_id: 61,
            description: "加载镜头序列",
            category: Category::Utility,
            param_type: ParamType::Response,
        },
        CommandDef {
            name: "deletesequence",
            packet_id: 62,
            description: "删除当前游戏内的序列",
            category: Category::Utility,
            param_type: ParamType::Response,
        },
        CommandDef {
            name: "godmode",
            packet_id: 32,
            description: "切换无敌模式",
            category: Category::Cheats,
            param_type: ParamType::Bool,
        },
        CommandDef {
            name: "kill",
            packet_id: 31,
            description: "杀死玩家",
            category: Category::Cheats,
            param_type: ParamType::Bool,
        },
        CommandDef {
            name: "killall",
            packet_id: 110,
            description: "杀死所有敌人",
            category: Category::Cheats,
            param_type: ParamType::Bool,
        },
        CommandDef {
            name: "heal",
            packet_id: 30,
            description: "治疗玩家",
            category: Category::Cheats,
            param_type: ParamType::Int,
        },
        CommandDef {
            name: "healall",
            packet_id: 111,
            description: "治疗所有敌人",
            category: Category::Cheats,
            param_type: ParamType::Bool,
        },
        CommandDef {
            name: "gamespeed",
            packet_id: 42,
            description: "调整游戏速度",
            category: Category::Cheats,
            param_type: ParamType::Float,
        },
        CommandDef {
            name: "healthregen",
            packet_id: 33,
            description: "脱战后每秒自动恢复生命",
            category: Category::Gameplay,
            param_type: ParamType::Response,
        },
    ]
}

/// The game's side of each command: the packet id the game answers to under
/// that command's name, and the kind of argument it reads after the id.
pub open spec fn game_protocol(name: Seq<char>) -> Option<(i32, ParamType)> {
    if name == "fps"@ {
        Some((40i32, ParamType::Float))
    } else if name == "fov"@ {
        Some((41i32, ParamType::Float))
    } else if name == "shadow"@ {
        Some((43i32, ParamType::Int))
    } else if name == "resolution"@ {
        Some((44i32, ParamType::Vector3F))
    } else if name == "settime"@ {
        Some((-1i32, ParamType::SetTime))
    } else if name == "timespeed"@ {
        Some((21i32, ParamType::Float))
    } else if name == "changeweather"@ {
        Some((25i32, ParamType::Bool))
    } else if name == "hideui"@ {
        Some((51i32, ParamType::Response))
    } else if name == "firstperson"@ {
        Some((52i32, ParamType::Response))
    } else if name == "benchmark"@ {
        Some((63i32, ParamType::Response))
    } else if name == "spawn"@ {
        Some((1i32, ParamType::Actor))
    } else if name == "tp"@ {
        Some((10i32, ParamType::Vector3F))
    } else if name == "cords"@ {
        Some((11i32, ParamType::Response))
    } else if name == "gettime"@ {
        Some((24i32, ParamType::Bool))
    } else if name == "pause"@ {
        Some((23i32, ParamType::Bool))
    } else if name == "freecam"@ {
        Some((50i32, ParamType::Response))
    } else if name == "idleanimation"@ {
        Some((53i32, ParamType::Response))
    } else if name == "savesequence"@ {
        Some((60i32, ParamType::Response))
    } else if name == "loadsequence"@ {
        Some((61i32, ParamType::Response))
    } else if name == "deletesequence"@ {
        Some((62i32, ParamType::Response))
    } else if name == "godmode"@ {
        Some((32i32, ParamType::Bool))
    } else if name == "kill"@ {
        Some((31i32, ParamType::Bool))
    } else if name == "killall"@ {
        Some((110i32, ParamType::Bool))
    } else if name == "heal"@ {
        Some((30i32, ParamType::Int))
    } else if name == "healall"@ {
        Some((111i32, ParamType::Bool))
    } else if name == "gamespeed"@ {
        Some((42i32, ParamType::Float))
    } else if name == "healthregen"@ {
        Some((33i32, ParamType::Response))
    } else {
        None
    }
}

/// Every command sends the packet id that the game's protocol gives its name,
/// with the argument kind the game expects, and every command of the
/// protocol is offered.
pub proof fn law_commands_follow_protocol()
    ensures
        forall|i: int|
            0 <= i < command_table().len() ==> game_protocol(#[trigger] command_table()[i].name@)
                == Some((command_table()[i].packet_id, command_table()[i].param_type)),
        forall|name: Seq<char>|
            #[trigger] game_protocol(name) is Some ==> exists|i: int|
                0 <= i < command_table().len() && command_table()[i].name@ == name,
{
    law_command_names_distinct();
    assert forall|i: int|
        0 <= i < command_table().len() implies game_protocol(#[trigger] command_table()[i].name@)
        == Some((command_table()[i].packet_id, command_table()[i].param_type)) by {
        assert(0 <= i < 27);
    }
    assert forall|name: Seq<char>| #[trigger] game_protocol(name) is Some implies exists|i: int|
        0 <= i < command_table().len() && command_table()[i].name@ == name by {
        if name == "fps"@ {
            assert(command_table()[0].name@ == name);
        } else if name == "fov"@ {
            assert(command_table()[1].name@ == name);
        } else if name == "shadow"@ {
            assert(command_table()[2].name@ == name);
        } else if name == "resolution"@ {
            assert(command_table()[3].name@ == name);
        } else if name == "settime"@ {
            assert(command_table()[4].name@ == name);
        } else if name == "timespeed"@ {
            assert(command_table()[5].name@ == name);
        } else if name == "changeweather"@ {
            assert(command_table()[6].name@ == name);
        } else if name == "hideui"@ {
            assert(command_table()[7].name@ == name);
        } else if name == "firstperson"@ {
            assert(command_table()[8].name@ == name);
        } else if name == "benchmark"@ {
            assert(command_table()[9].name@ == name);
        } else if name == "spawn"@ {
            assert(command_table()[10].name@ == name);
        } else if name == "tp"@ {
            assert(command_table()[11].name@ == name);
        } else if name == "cords"@ {
            assert(command_table()[12].name@ == name);
        } else if name == "gettime"@ {
            assert(command_table()[13].name@ == name);
        } else if name == "pause"@ {
            assert(command_table()[14].name@ == name);
        } else if name == "freecam"@ {
            assert(command_table()[15].name@ == name);
        } else if name == "idleanimation"@ {
            assert(command_table()[16].name@ == name);
        } else if name == "savesequence"@ {
            assert(command_table()[17].name@ == name);
        } else if name == "loadsequence"@ {
            assert(command_table()[18].name@ == name);
        } else if name == "deletesequence"@ {
            assert(command_table()[19].name@ == name);
        } else if name == "godmode"@ {
            assert(command_table()[20].name@ == name);
        } else if name == "kill"@ {
            assert(command_table()[21].name@ == name);
        } else if name == "killall"@ {
            assert(command_table()[22].name@ == name);
        } else if name == "heal"@ {
            assert(command_table()[23].name@ == name);
        } else if name == "healall"@ {
            assert(command_table()[24].name@ == name);
        } else if name == "gamespeed"@ {
            assert(command_table()[25].name@ == name);
        } else if name == "healthregen"@ {
            assert(command_table()[26].name@ == name);
        }
    }
}

/// All the commands the console offers.
pub fn all_commands() -> (r: Vec<CommandDef>)
    ensures
        r@ == command_table(),
        forall|i: int|
            0 <= i < r@.len() ==> game_protocol(#[trigger] r@[i].name@) == Some(
                (r@[i].packet_id, r@[i].param_type),
            ),
        forall|name: Seq<char>|
            #[trigger] game_protocol(name) is Some ==> exists|i: int|
                0 <= i < r@.len() && r@[i].name@ == name,
{
    let mut v: Vec<CommandDef> = Vec::new();
    v.push(CommandDef {
        name: "fps",
        packet_id: 40,
        description: "调整 FPS 上限",
        category: Category::Graphics,
        param_type: ParamType::Float,
    });
    v.push(CommandDef {
        name: "fov",
        packet_id: 41,
        description: "调整视野 (FOV)",
        category: Category::Graphics,
        param_type: ParamType::Float,
    });
    v.push(CommandDef {
        name: "shadow",
        packet_id: 43,
        description: "调整阴影质量",
        category: Category::Graphics,
        param_type: ParamType::Int,
    });
    v.push(CommandDef {
        name: "resolution",
        packet_id: 44,
        description: "调整分辨率",
        category: Category::Graphics,
        param_type: ParamType::Vector3F,
    });
    v.push(CommandDef {
        name: "settime",
        packet_id: -1,
        description: "设置当前时间 (day/dawn/night/dusk 或 HH:MM)",
        category: Category::Graphics,
        param_type: ParamType::SetTime,
    });
    v.push(CommandDef {
        name: "timespeed",
        packet_id: 21,
        description: "设置时间流速",
        category: Category::Graphics,
        param_type: ParamType::Float,
    });
    v.push(CommandDef {
        name: "changeweather",
        packet_id: 25,
        description: "更改天气（随机）",
        category: Category::Graphics,
        param_type: ParamType::Bool,
    });
    v.push(CommandDef {
        name: "hideui",
        packet_id: 51,
        description: "切换 UI 显示/隐藏",
        category: Category::Graphics,
        param_type: ParamType::Response,
    });
    v.push(CommandDef {
        name: "firstperson",
        packet_id: 52,
        description: "切换第一人称视角",
        category: Category::Graphics,
        param_type: ParamType::Response,
    });
    v.push(CommandDef {
        name: "benchmark",
        packet_id: 63,
        description: "运行基准测试",
        category: Category::Graphics,
        param_type: ParamType::Response,
    });
    v.push(CommandDef {
        name: "spawn",
        packet_id: 1,
        description: "生成 Actor（输入 \"random\" 随机生成敌人）",
        category: Category::Utility,
        param_type: ParamType::Actor,
    });
    v.push(CommandDef {
        name: "tp",
        packet_id: 10,
        description: "传送玩家到指定坐标 (X Y Z)",
        category: Category::Utility,
        param_type: ParamType::Vector3F,
    });
    v.push(CommandDef {
        name: "cords",
        packet_id: 11,
        description: "获取玩家当前坐标",
        category: Category::Utility,
        param_type: ParamType::Response,
    });
    v.push(CommandDef {
        name: "gettime",
        packet_id: 24,
        description: "获取当前游戏时间",
        category: Category::Utility,
        param_type: ParamType::Bool,
    });
    v.push(CommandDef {
        name: "pause",
        packet_id: 23,
        description: "暂停游戏（自由镜头仍可移动）",
        category: Category::Utility,
        param_type: ParamType::Bool,
    });
    v.push(CommandDef {
        name: "freecam",
        packet_id: 50,
        description: "切换自由镜头",
        category: Category::Utility,
        param_type: ParamType::Response,
    });
    v.push(CommandDef {
        name: "idleanimation",
        packet_id: 53,
        description: "切换自拍相机的待机动画",
        category: Category::Utility,
        param_type: ParamType::Response,
    });
    v.push(CommandDef {
        name: "savesequence",
        packet_id: 60,
        description: "保存当前镜头序列",
        category: Category::Utility,
        param_type: ParamType::Response,
    });
    v.push(CommandDef {
        name: "loadsequence",
        packet_id: 61,
        description: "加载镜头序列",
        category: Category::Utility,
        param_type: ParamType::Response,
    });
    v.push(CommandDef {
        name: "deletesequence",
        packet_id: 62,
        description: "删除当前游戏内的序列",
        category: Category::Utility,
        param_type: ParamType::Response,
    });
    v.push(CommandDef {
        name: "godmode",
        packet_id: 32,
        description: "切换无敌模式",
        category: Category::Cheats,
        param_type: ParamType::Bool,
    });
    v.push(CommandDef {
        name: "kill",
        packet_id: 31,
        description: "杀死玩家",
        category: Category::Cheats,
        param_type: ParamType::Bool,
    });
    v.push(CommandDef {
        name: "killall",
        packet_id: 110,
        description: "杀死所有敌人",
        category: Category::Cheats,
        param_type: ParamType::Bool,
    });
    v.push(CommandDef {
        name: "heal",
        packet_id: 30,
        description: "治疗玩家",
        category: Category::Cheats,
        param_type: ParamType::Int,
    });
    v.push(CommandDef {
        name: "healall",
        packet_id: 111,
        description: "治疗所有敌人",
        category: Category::Cheats,
        param_type: ParamType::Bool,
    });
    v.push(CommandDef {
        name: "gamespeed",
        packet_id: 42,
        description: "调整游戏速度",
        category: Category::Cheats,
        param_type: ParamType::Float,
    });
    v.push(CommandDef {
        name: "healthregen",
        packet_id: 33,
        description: "脱战后每秒自动恢复生命",
        category: Category::Gameplay,
        param_type: ParamType::Response,
    });
    assert(v@ =~= command_table());
    proof {
        law_commands_follow_protocol();
    }
    v
}

/// The commands of `commands` listed under `category`, in their order.
pub fn commands_in_category(commands: &Vec<CommandDef>, category: Category) -> (r: Vec<CommandDef>)
    ensures
        r@ == commands@.filter(|c: CommandDef| c.category == category),
{
    let ghost pred = |c: CommandDef| c.category == category;
    let mut out: Vec<CommandDef> = Vec::new();
    let mut i: usize = 0;
    assert(commands@.take(0).filter(pred) =~= Seq::<CommandDef>::empty()) by {
        reveal_with_fuel(Seq::filter, 1);
    }
    while i < commands.len()
        invariant
            i <= commands@.len(),
            out@ == commands@.take(i as int).filter(pred),
            pred == (|c: CommandDef| c.category == category),
        decreases commands.len() - i,
    {
        let c = commands[i];
        assert(commands@.take(i + 1).drop_last() =~= commands@.take(i as int));
        assert(commands@.take(i + 1).last() == c);
        let ghost prev = out@;
        assert(commands@.take(i + 1).filter(pred) == (if pred(c) {
            commands@.take(i as int).filter(pred).push(c)
        } else {
            commands@.take(i as int).filter(pred)
        })) by {
            reveal_with_fuel(Seq::filter, 1);
        }
        if c.category == category {
            assert(pred(c));
            out.push(c);
        } else {
            assert(!pred(c));
        }
        i = i + 1;
    }
    assert(commands@.take(i as int) =~= commands@);
    out
}

/// No two commands send the same packet id.
pub proof fn law_packet_ids_distinct()
    ensures
        forall|i: int, j: int|
            0 <= i < j < command_table().len() ==> #[trigger] command_table()[i].packet_id
                != #[trigger] command_table()[j].packet_id,
{
}

/// Every command's category is one of the listed categories, and each
/// category is listed once.
pub proof fn law_categories_listed()
    ensures
        forall|i: int|
            0 <= i < command_table().len() ==> category_order().contains(
                #[trigger] command_table()[i].category,
            ),
        forall|c: Category| category_order().contains(c),
        category_order().no_duplicates(),
{
    assert forall|c: Category| category_order().contains(c) by {
        match c {
            Category::Graphics => assert(category_order()[0] == c),
            Category::Utility => assert(category_order()[1] == c),
            Category::Cheats => assert(category_order()[2] == c),
            Category::Gameplay => assert(category_order()[3] == c),
        }
    }
}

/// No two commands have the same name.
pub proof fn law_command_names_distinct()
    ensures
        forall|i: int, j: int|
            0 <= i < j < command_table().len() ==> (#[trigger] command_table()[i]).name@ != (
            #[trigger] command_table()[j]).name@,
{
    reveal_strlit("fps");
    reveal_strlit("fov");
    reveal_strlit("shadow");
    reveal_strlit("resolution");
    reveal_strlit("settime");
    reveal_strlit("timespeed");
    reveal_strlit("changeweather");
    reveal_strlit("hideui");
    reveal_strlit("firstperson");
    reveal_strlit("benchmark");
    reveal_strlit("spawn");
    reveal_strlit("tp");
    reveal_strlit("cords");
    reveal_strlit("gettime");
    reveal_strlit("pause");
    reveal_strlit("freecam");
    reveal_strlit("idleanimation");
    reveal_strlit("savesequence");
    reveal_strlit("loadsequence");
    reveal_strlit("deletesequence");
    reveal_strlit("godmode");
    reveal_strlit("kill");
    reveal_strlit("killall");
    reveal_strlit("heal");
    reveal_strlit("healall");
    reveal_strlit("gamespeed");
    reveal_strlit("healthregen");
    assert forall|i: int, j: int|
        0 <= i < j < command_table().len() implies (#[trigger] command_table()[i]).name@ != (
        #[trigger] command_table()[j]).name@ by {
        let a = command_table()[i].name@;
        let b = command_table()[j].name@;
        assert(a.len() != b.len() || a[0] != b[0] || a[1] != b[1] || a[2] != b[2] || a[3] != b[3]
            || a[4] != b[4] || a[5] != b[5] || a[6] != b[6] || a[7] != b[7]);
    }
}

} // verus!
