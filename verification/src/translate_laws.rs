//! What holds of every translated message.
use crate::text;
use crate::translate::{self, PHRASES, PHRASE_COUNT};
use vstd::prelude::*;

verus! {

/// Whether `c` is a lower case letter, an `@` or a dot: one of the characters of a plain address.
pub open spec fn address_char(c: char) -> bool {
    'a' <= c <= 'z' || c == '@' || c == '.'
}

/// No known phrase reaches over a line end, each holds a character that no plain address has, and
/// what stands for it does not hold the sign `@`.
proof fn lemma_phrase_shape(i: int)
    requires
        0 <= i < PHRASE_COUNT,
    ensures
        !PHRASES@[i].0@.contains('\n'),
        exists|k: int|
            0 <= k < PHRASES@[i].0@.len() && !address_char(#[trigger] PHRASES@[i].0@[k]),
        !PHRASES@[i].1@.contains('@'),
{
    if i == 0 {
        reveal_strlit("开始刷新账号");
        reveal_strlit("начало обновления аккаунта");
        assert(!address_char(PHRASES@[0].0@[0]));
    }
    if i == 1 {
        reveal_strlit("刷新完成");
        reveal_strlit("обновление завершено");
        assert(!address_char(PHRASES@[1].0@[0]));
    }
    if i == 2 {
        reveal_strlit("手动刷新账号开始");
        reveal_strlit("запущено ручное обновление аккаунта");
        assert(!address_char(PHRASES@[2].0@[0]));
    }
    if i == 3 {
        reveal_strlit("手动刷新账号完成");
        reveal_strlit("ручное обновление аккаунта завершено");
        assert(!address_char(PHRASES@[3].0@[0]));
    }
    if i == 4 {
        reveal_strlit("手动批量刷新开始");
        reveal_strlit("запущено ручное пакетное обновление");
        assert(!address_char(PHRASES@[4].0@[0]));
    }
    if i == 5 {
        reveal_strlit("手动批量刷新完成");
        reveal_strlit("ручное пакетное обновление завершено");
        assert(!address_char(PHRASES@[5].0@[0]));
    }
    if i == 6 {
        reveal_strlit("手动批量обновление завершено");
        reveal_strlit("ручное пакетное обновление завершено");
        assert(!address_char(PHRASES@[6].0@[0]));
    }
    if i == 7 {
        reveal_strlit("开始批量刷新");
        reveal_strlit("запущено пакетное обновление");
        assert(!address_char(PHRASES@[7].0@[0]));
    }
    if i == 8 {
        reveal_strlit("批量刷新开始");
        reveal_strlit("запущено пакетное обновление");
        assert(!address_char(PHRASES@[8].0@[0]));
    }
    if i == 9 {
        reveal_strlit("批量刷新结束");
        reveal_strlit("пакетное обновление завершено");
        assert(!address_char(PHRASES@[9].0@[0]));
    }
    if i == 10 {
        reveal_strlit("批量刷新完成");
        reveal_strlit("пакетное обновление завершено");
        assert(!address_char(PHRASES@[10].0@[0]));
    }
    if i == 11 {
        reveal_strlit("批量обновление завершено");
        reveal_strlit("пакетное обновление завершено");
        assert(!address_char(PHRASES@[11].0@[0]));
    }
    if i == 12 {
        reveal_strlit("批量обновление");
        reveal_strlit("пакетное обновление");
        assert(!address_char(PHRASES@[12].0@[0]));
    }
    if i == 13 {
        reveal_strlit("批量刷新");
        reveal_strlit("пакетное обновление");
        assert(!address_char(PHRASES@[13].0@[0]));
    }
    if i == 14 {
        reveal_strlit("Token 保活成功");
        reveal_strlit("token успешно продлён");
        assert(!address_char(PHRASES@[14].0@[0]));
    }
    if i == 15 {
        reveal_strlit("Codex 配额请求");
        reveal_strlit("запрос квоты Codex");
        assert(!address_char(PHRASES@[15].0@[0]));
    }
    if i == 16 {
        reveal_strlit("Codex 配额响应元信息");
        reveal_strlit("метаданные ответа по квоте Codex");
        assert(!address_char(PHRASES@[16].0@[0]));
    }
    if i == 17 {
        reveal_strlit("Codex 配额接口返回非成功状态");
        reveal_strlit("интерфейс квоты Codex вернул неуспешный статус");
        assert(!address_char(PHRASES@[17].0@[0]));
    }
    if i == 18 {
        reveal_strlit("配额请求检测到失效 Token，准备强制刷新后重试");
        reveal_strlit("запрос квоты обнаружил недействительный token, готовлю принудительное обновление и повтор");
        assert(!address_char(PHRASES@[18].0@[0]));
    }
    if i == 19 {
        reveal_strlit("用户信息拉取成功");
        reveal_strlit("данные пользователя получены");
        assert(!address_char(PHRASES@[19].0@[0]));
    }
    if i == 20 {
        reveal_strlit("订阅信息拉取成功");
        reveal_strlit("данные подписки получены");
        assert(!address_char(PHRASES@[20].0@[0]));
    }
    if i == 21 {
        reveal_strlit("API 配额拉取成功");
        reveal_strlit("API-квота получена");
        assert(!address_char(PHRASES@[21].0@[0]));
    }
    if i == 22 {
        reveal_strlit("刷新失败");
        reveal_strlit("обновление завершилось ошибкой");
        assert(!address_char(PHRASES@[22].0@[0]));
    }
    if i == 23 {
        reveal_strlit("未获取到有效配额快照，保留旧配额");
        reveal_strlit("не удалось получить актуальный снимок квоты, оставляю старую квоту");
        assert(!address_char(PHRASES@[23].0@[0]));
    }
    if i == 24 {
        reveal_strlit("日志系统已完成初始化");
        reveal_strlit("система логов инициализирована");
        assert(!address_char(PHRASES@[24].0@[0]));
    }
    if i == 25 {
        reveal_strlit("应用内未启用全局代理，已恢复启动时继承环境（未携带代理变量）");
        reveal_strlit("встроенный глобальный прокси выключен, восстановлено унаследованное окружение запуска (без proxy-переменных)");
        assert(!address_char(PHRASES@[25].0@[0]));
    }
    if i == 26 {
        reveal_strlit("网页查询服务未启用，跳过启动");
        reveal_strlit("веб-сервис отчётов выключен, запуск пропущен");
        assert(!address_char(PHRASES@[26].0@[0]));
    }
    if i == 27 {
        reveal_strlit("用户配置已保存");
        reveal_strlit("пользовательская конфигурация сохранена");
        assert(!address_char(PHRASES@[27].0@[0]));
    }
    if i == 28 {
        reveal_strlit("服务状态已保存");
        reveal_strlit("состояние сервиса сохранено");
        assert(!address_char(PHRASES@[28].0@[0]));
    }
    if i == 29 {
        reveal_strlit("WebSocket 服务已启动");
        reveal_strlit("WebSocket-сервис запущен");
        assert(!address_char(PHRASES@[29].0@[0]));
    }
    if i == 30 {
        reveal_strlit("Cockpit Tools 启动...");
        reveal_strlit("Cockpit Tools запускается...");
        assert(!address_char(PHRASES@[30].0@[0]));
    }
    if i == 31 {
        reveal_strlit("Tauri Updater + Process 插件已初始化");
        reveal_strlit("плагины Tauri Updater и Process инициализированы");
        assert(!address_char(PHRASES@[31].0@[0]));
    }
    if i == 32 {
        reveal_strlit("后端 OAuth token 保活已启动");
        reveal_strlit("фоновое продление OAuth token запущено");
        assert(!address_char(PHRASES@[32].0@[0]));
    }
    if i == 33 {
        reveal_strlit("已应用 macOS Dock 图标策略");
        reveal_strlit("применена политика иконки в Dock на macOS");
        assert(!address_char(PHRASES@[33].0@[0]));
    }
    if i == 34 {
        reveal_strlit("创建骨架托盘");
        reveal_strlit("создание базового трей-меню");
        assert(!address_char(PHRASES@[34].0@[0]));
    }
    if i == 35 {
        reveal_strlit("骨架托盘创建完成，等待后台加载完整菜单");
        reveal_strlit("базовое трей-меню создано, жду фоновую загрузку полного меню");
        assert(!address_char(PHRASES@[35].0@[0]));
    }
    if i == 36 {
        reveal_strlit("macOS 原生菜单模式，跳过 Tauri 托盘菜单更新");
        reveal_strlit("режим нативного меню macOS: обновление меню Tauri в трее пропущено");
        assert(!address_char(PHRASES@[36].0@[3]));
    }
    if i == 37 {
        reveal_strlit("本地接入服务已启动");
        reveal_strlit("локальный сервис доступа запущен");
        assert(!address_char(PHRASES@[37].0@[0]));
    }
    if i == 38 {
        reveal_strlit("悬浮卡片窗口已创建");
        reveal_strlit("окно плавающей карточки создано");
        assert(!address_char(PHRASES@[38].0@[0]));
    }
    if i == 39 {
        reveal_strlit("启动参数数量");
        reveal_strlit("количество аргументов запуска");
        assert(!address_char(PHRASES@[39].0@[0]));
    }
    if i == 40 {
        reveal_strlit("开始处理外部导入参数");
        reveal_strlit("начата обработка аргументов внешнего импорта");
        assert(!address_char(PHRASES@[40].0@[0]));
    }
    if i == 41 {
        reveal_strlit("检查参数");
        reveal_strlit("проверка аргумента");
        assert(!address_char(PHRASES@[41].0@[0]));
    }
    if i == 42 {
        reveal_strlit("未发现 Deep Link 参数");
        reveal_strlit("параметры deep link не найдены");
        assert(!address_char(PHRASES@[42].0@[0]));
    }
    if i == 43 {
        reveal_strlit("外部导入处理结果");
        reveal_strlit("результат обработки внешнего импорта");
        assert(!address_char(PHRASES@[43].0@[0]));
    }
    if i == 44 {
        reveal_strlit("使用工作区公告文件 announcements.json");
        reveal_strlit("используется файл объявлений рабочего проекта announcements.json");
        assert(!address_char(PHRASES@[44].0@[0]));
    }
    if i == 45 {
        reveal_strlit("读取待处理导入: empty");
        reveal_strlit("отложенный импорт пуст");
        assert(!address_char(PHRASES@[45].0@[0]));
    }
    if i == 46 {
        reveal_strlit("启动触发自动更新检查流程");
        reveal_strlit("при запуске запущена проверка обновлений");
        assert(!address_char(PHRASES@[46].0@[0]));
    }
    if i == 47 {
        reveal_strlit("读取更新设置");
        reveal_strlit("прочитаны настройки обновления");
        assert(!address_char(PHRASES@[47].0@[0]));
    }
    if i == 48 {
        reveal_strlit("启动检查立即执行");
        reveal_strlit("проверка при запуске выполняется сразу");
        assert(!address_char(PHRASES@[48].0@[0]));
    }
    if i == 49 {
        reveal_strlit("后台自动更新关闭，先执行无弹窗检查，仅在发现新版本时展示弹窗");
        reveal_strlit("фоновое автообновление выключено: сначала тихая проверка, окно покажется только если найдётся новая версия");
        assert(!address_char(PHRASES@[49].0@[0]));
    }
    if i == 50 {
        reveal_strlit("：");
        reveal_strlit(": ");
        assert(!address_char(PHRASES@[50].0@[0]));
    }
    if i == 51 {
        reveal_strlit("；");
        reveal_strlit("; ");
        assert(!address_char(PHRASES@[51].0@[0]));
    }
    if i == 52 {
        reveal_strlit("更新检查完成：当前已是最新版本");
        reveal_strlit("проверка обновлений завершена: уже установлена последняя версия");
        assert(!address_char(PHRASES@[52].0@[0]));
    }
    if i == 53 {
        reveal_strlit("更新检查完成: 当前已是最新版本");
        reveal_strlit("проверка обновлений завершена: уже установлена последняя версия");
        assert(!address_char(PHRASES@[53].0@[0]));
    }
    if i == 54 {
        reveal_strlit("已更新 last_check_time，结束本次更新检查流程");
        reveal_strlit("обновлено last_check_time, текущая проверка обновлений завершена");
        assert(!address_char(PHRASES@[54].0@[0]));
    }
    if i == 55 {
        reveal_strlit("开始列出账号");
        reveal_strlit("начат вывод списка аккаунтов");
        assert(!address_char(PHRASES@[55].0@[0]));
    }
    if i == 56 {
        reveal_strlit("列出账号");
        reveal_strlit("вывод списка аккаунтов");
        assert(!address_char(PHRASES@[56].0@[0]));
    }
    if i == 57 {
        reveal_strlit("所有账号配额");
        reveal_strlit("квоты всех аккаунтов");
        assert(!address_char(PHRASES@[57].0@[0]));
    }
    if i == 58 {
        reveal_strlit("账号配额");
        reveal_strlit("квоты аккаунтов");
        assert(!address_char(PHRASES@[58].0@[0]));
    }
    if i == 59 {
        reveal_strlit("并发模式");
        reveal_strlit("параллельный режим");
        assert(!address_char(PHRASES@[59].0@[0]));
    }
    if i == 60 {
        reveal_strlit("最大并发");
        reveal_strlit("максимальный параллелизм");
        assert(!address_char(PHRASES@[60].0@[0]));
    }
    if i == 61 {
        reveal_strlit("上游返回失败");
        reveal_strlit("апстрим вернул ошибку");
        assert(!address_char(PHRASES@[61].0@[0]));
    }
    if i == 62 {
        reveal_strlit("创建系统托盘");
        reveal_strlit("создание системного трея");
        assert(!address_char(PHRASES@[62].0@[0]));
    }
    if i == 63 {
        reveal_strlit("上游返回失败");
        reveal_strlit("апстрим вернул ошибку");
        assert(!address_char(PHRASES@[63].0@[0]));
    }
    if i == 64 {
        reveal_strlit("启动时 get_current");
        reveal_strlit("get_current при запуске");
        assert(!address_char(PHRASES@[64].0@[0]));
    }
    if i == 65 {
        reveal_strlit("启动始终执行更新检查");
        reveal_strlit("проверка обновлений при запуске выполняется всегда");
        assert(!address_char(PHRASES@[65].0@[0]));
    }
    if i == 66 {
        reveal_strlit(" 成功");
        reveal_strlit(" успешно");
        assert(!address_char(PHRASES@[66].0@[0]));
    }
    if i == 67 {
        reveal_strlit(" 失败");
        reveal_strlit(" с ошибкой");
        assert(!address_char(PHRASES@[67].0@[0]));
    }
    if i == 68 {
        reveal_strlit("耗时");
        reveal_strlit("затрачено");
        assert(!address_char(PHRASES@[68].0@[0]));
    }
    if i == 69 {
        reveal_strlit("OAuth 登录开始");
        reveal_strlit("запущен OAuth-вход");
        assert(!address_char(PHRASES@[69].0@[0]));
    }
    if i == 70 {
        reveal_strlit("OAuth 登录完成");
        reveal_strlit("OAuth-вход завершён");
        assert(!address_char(PHRASES@[70].0@[0]));
    }
    if i == 71 {
        reveal_strlit("OAuth 等待完成");
        reveal_strlit("ожидание завершения OAuth-входа");
        assert(!address_char(PHRASES@[71].0@[0]));
    }
    if i == 72 {
        reveal_strlit("登录会话已创建");
        reveal_strlit("сессия входа создана");
        assert(!address_char(PHRASES@[72].0@[0]));
    }
    if i == 73 {
        reveal_strlit("复用登录会话");
        reveal_strlit("переиспользуется существующая сессия входа");
        assert(!address_char(PHRASES@[73].0@[0]));
    }
    if i == 74 {
        reveal_strlit("账号已保存");
        reveal_strlit("аккаунт сохранён");
        assert(!address_char(PHRASES@[74].0@[0]));
    }
    if i == 75 {
        reveal_strlit("start 命令触发");
        reveal_strlit("команда start запущена");
        assert(!address_char(PHRASES@[75].0@[5]));
    }
    if i == 76 {
        reveal_strlit("start 命令完成");
        reveal_strlit("команда start завершена");
        assert(!address_char(PHRASES@[76].0@[5]));
    }
    if i == 77 {
        reveal_strlit("complete 命令触发");
        reveal_strlit("команда complete запущена");
        assert(!address_char(PHRASES@[77].0@[8]));
    }
    if i == 78 {
        reveal_strlit("complete 命令完成");
        reveal_strlit("команда complete завершена");
        assert(!address_char(PHRASES@[78].0@[8]));
    }
    if i == 79 {
        reveal_strlit("peek 命令命中会话");
        reveal_strlit("команда peek нашла активную сессию");
        assert(!address_char(PHRASES@[79].0@[4]));
    }
    if i == 80 {
        reveal_strlit("开始创建登录会话");
        reveal_strlit("начато создание сессии входа");
        assert(!address_char(PHRASES@[80].0@[0]));
    }
    if i == 81 {
        reveal_strlit("开始等待回调完成");
        reveal_strlit("начато ожидание завершения callback");
        assert(!address_char(PHRASES@[81].0@[0]));
    }
    if i == 82 {
        reveal_strlit("未找到官方 machine token 缓存，将跳过机器标识注入");
        reveal_strlit("официальный кэш machine token не найден, пропускаю внедрение машинного идентификатора");
        assert(!address_char(PHRASES@[82].0@[0]));
    }
    if i == 83 {
        reveal_strlit("未找到官方 machine id 缓存，将继续使用无机器标识链路");
        reveal_strlit("официальный кэш machine id не найден, продолжаю без машинного идентификатора");
        assert(!address_char(PHRASES@[83].0@[0]));
    }
    if i == 84 {
        reveal_strlit("已生成官方 CLI device login 链接");
        reveal_strlit("сгенерирована официальная CLI-ссылка device login");
        assert(!address_char(PHRASES@[84].0@[0]));
    }
    if i == 85 {
        reveal_strlit("等待 device token 中");
        reveal_strlit("ожидание device token");
        assert(!address_char(PHRASES@[85].0@[0]));
    }
    if i == 86 {
        reveal_strlit("构造状态请求头");
        reveal_strlit("собран заголовок статус-запроса");
        assert(!address_char(PHRASES@[86].0@[0]));
    }
    if i == 87 {
        reveal_strlit("登录完成并入库成功");
        reveal_strlit("вход завершён, аккаунт успешно сохранён");
        assert(!address_char(PHRASES@[87].0@[0]));
    }
    if i == 88 {
        reveal_strlit("加载 Code Assist 信息");
        reveal_strlit("загрузка информации Code Assist");
        assert(!address_char(PHRASES@[88].0@[0]));
    }
    if i == 89 {
        reveal_strlit("keys=");
        reveal_strlit("ключи=");
        assert(!address_char(PHRASES@[89].0@[4]));
    }
    if i == 90 {
        reveal_strlit("受管 Windsurf 实例未在运行，无需关闭");
        reveal_strlit("управляемые экземпляры Windsurf не запущены, закрывать нечего");
        assert(!address_char(PHRASES@[90].0@[0]));
    }
    if i == 91 {
        reveal_strlit("未提供可关闭的 Windsurf 实例目录");
        reveal_strlit("не переданы каталоги экземпляров Windsurf для закрытия");
        assert(!address_char(PHRASES@[91].0@[0]));
    }
}

/// A message goes through all phrases, one after the other: in what one left, the next is replaced
/// wherever it stands. What the last one leaves is the translation.
pub proof fn law_message_goes_through_all_phrases(message: Seq<char>) -> (stages: Seq<Seq<char>>)
    ensures
        stages.len() == 93,
        stages[0] == message,
        stages[92] == translate::translated(message),
        forall|i: int|
            #![trigger PHRASES@[i]]
            0 <= i < 92 ==> stages[i + 1] == text::replaced(
                stages[i],
                PHRASES@[i].0@,
                PHRASES@[i].1@,
            ),
{
    Seq::new(93, |i: int| translate::after_phrases(message, i as nat))
}

/// The phrases that are rewritten, and what is written for each.
pub proof fn law_phrases_and_what_stands_for_them()
    ensures
        PHRASES@.len() == 92,
        PHRASES@[0].0@ == "开始刷新账号"@ && PHRASES@[0].1@ == "начало обновления аккаунта"@,
        PHRASES@[1].0@ == "刷新完成"@ && PHRASES@[1].1@ == "обновление завершено"@,
        PHRASES@[2].0@ == "手动刷新账号开始"@ && PHRASES@[2].1@ == "запущено ручное обновление аккаунта"@,
        PHRASES@[3].0@ == "手动刷新账号完成"@ && PHRASES@[3].1@ == "ручное обновление аккаунта завершено"@,
        PHRASES@[4].0@ == "手动批量刷新开始"@ && PHRASES@[4].1@ == "запущено ручное пакетное обновление"@,
        PHRASES@[5].0@ == "手动批量刷新完成"@ && PHRASES@[5].1@ == "ручное пакетное обновление завершено"@,
        PHRASES@[6].0@ == "手动批量обновление завершено"@ && PHRASES@[6].1@ == "ручное пакетное обновление завершено"@,
        PHRASES@[7].0@ == "开始批量刷新"@ && PHRASES@[7].1@ == "запущено пакетное обновление"@,
        PHRASES@[8].0@ == "批量刷新开始"@ && PHRASES@[8].1@ == "запущено пакетное обновление"@,
        PHRASES@[9].0@ == "批量刷新结束"@ && PHRASES@[9].1@ == "пакетное обновление завершено"@,
        PHRASES@[10].0@ == "批量刷新完成"@ && PHRASES@[10].1@ == "пакетное обновление завершено"@,
        PHRASES@[11].0@ == "批量обновление завершено"@ && PHRASES@[11].1@ == "пакетное обновление завершено"@,
        PHRASES@[12].0@ == "批量обновление"@ && PHRASES@[12].1@ == "пакетное обновление"@,
        PHRASES@[13].0@ == "批量刷新"@ && PHRASES@[13].1@ == "пакетное обновление"@,
        PHRASES@[14].0@ == "Token 保活成功"@ && PHRASES@[14].1@ == "token успешно продлён"@,
        PHRASES@[15].0@ == "Codex 配额请求"@ && PHRASES@[15].1@ == "запрос квоты Codex"@,
        PHRASES@[16].0@ == "Codex 配额响应元信息"@ && PHRASES@[16].1@ == "метаданные ответа по квоте Codex"@,
        PHRASES@[17].0@ == "Codex 配额接口返回非成功状态"@ && PHRASES@[17].1@ == "интерфейс квоты Codex вернул неуспешный статус"@,
        PHRASES@[18].0@ == "配额请求检测到失效 Token，准备强制刷新后重试"@ && PHRASES@[18].1@ == "запрос квоты обнаружил недействительный token, готовлю принудительное обновление и повтор"@,
        PHRASES@[19].0@ == "用户信息拉取成功"@ && PHRASES@[19].1@ == "данные пользователя получены"@,
        PHRASES@[20].0@ == "订阅信息拉取成功"@ && PHRASES@[20].1@ == "данные подписки получены"@,
        PHRASES@[21].0@ == "API 配额拉取成功"@ && PHRASES@[21].1@ == "API-квота получена"@,
        PHRASES@[22].0@ == "刷新失败"@ && PHRASES@[22].1@ == "обновление завершилось ошибкой"@,
        PHRASES@[23].0@ == "未获取到有效配额快照，保留旧配额"@ && PHRASES@[23].1@ == "не удалось получить актуальный снимок квоты, оставляю старую квоту"@,
        PHRASES@[24].0@ == "日志系统已完成初始化"@ && PHRASES@[24].1@ == "система логов инициализирована"@,
        PHRASES@[25].0@ == "应用内未启用全局代理，已恢复启动时继承环境（未携带代理变量）"@ && PHRASES@[25].1@ == "встроенный глобальный прокси выключен, восстановлено унаследованное окружение запуска (без proxy-переменных)"@,
        PHRASES@[26].0@ == "网页查询服务未启用，跳过启动"@ && PHRASES@[26].1@ == "веб-сервис отчётов выключен, запуск пропущен"@,
        PHRASES@[27].0@ == "用户配置已保存"@ && PHRASES@[27].1@ == "пользовательская конфигурация сохранена"@,
        PHRASES@[28].0@ == "服务状态已保存"@ && PHRASES@[28].1@ == "состояние сервиса сохранено"@,
        PHRASES@[29].0@ == "WebSocket 服务已启动"@ && PHRASES@[29].1@ == "WebSocket-сервис запущен"@,
        PHRASES@[30].0@ == "Cockpit Tools 启动..."@ && PHRASES@[30].1@ == "Cockpit Tools запускается..."@,
        PHRASES@[31].0@ == "Tauri Updater + Process 插件已初始化"@ && PHRASES@[31].1@ == "плагины Tauri Updater и Process инициализированы"@,
        PHRASES@[32].0@ == "后端 OAuth token 保活已启动"@ && PHRASES@[32].1@ == "фоновое продление OAuth token запущено"@,
        PHRASES@[33].0@ == "已应用 macOS Dock 图标策略"@ && PHRASES@[33].1@ == "применена политика иконки в Dock на macOS"@,
        PHRASES@[34].0@ == "创建骨架托盘"@ && PHRASES@[34].1@ == "создание базового трей-меню"@,
        PHRASES@[35].0@ == "骨架托盘创建完成，等待后台加载完整菜单"@ && PHRASES@[35].1@ == "базовое трей-меню создано, жду фоновую загрузку полного меню"@,
        PHRASES@[36].0@ == "macOS 原生菜单模式，跳过 Tauri 托盘菜单更新"@ && PHRASES@[36].1@ == "режим нативного меню macOS: обновление меню Tauri в трее пропущено"@,
        PHRASES@[37].0@ == "本地接入服务已启动"@ && PHRASES@[37].1@ == "локальный сервис доступа запущен"@,
        PHRASES@[38].0@ == "悬浮卡片窗口已创建"@ && PHRASES@[38].1@ == "окно плавающей карточки создано"@,
        PHRASES@[39].0@ == "启动参数数量"@ && PHRASES@[39].1@ == "количество аргументов запуска"@,
        PHRASES@[40].0@ == "开始处理外部导入参数"@ && PHRASES@[40].1@ == "начата обработка аргументов внешнего импорта"@,
        PHRASES@[41].0@ == "检查参数"@ && PHRASES@[41].1@ == "проверка аргумента"@,
        PHRASES@[42].0@ == "未发现 Deep Link 参数"@ && PHRASES@[42].1@ == "параметры deep link не найдены"@,
        PHRASES@[43].0@ == "外部导入处理结果"@ && PHRASES@[43].1@ == "результат обработки внешнего импорта"@,
        PHRASES@[44].0@ == "使用工作区公告文件 announcements.json"@ && PHRASES@[44].1@ == "используется файл объявлений рабочего проекта announcements.json"@,
        PHRASES@[45].0@ == "读取待处理导入: empty"@ && PHRASES@[45].1@ == "отложенный импорт пуст"@,
        PHRASES@[46].0@ == "启动触发自动更新检查流程"@ && PHRASES@[46].1@ == "при запуске запущена проверка обновлений"@,
        PHRASES@[47].0@ == "读取更新设置"@ && PHRASES@[47].1@ == "прочитаны настройки обновления"@,
        PHRASES@[48].0@ == "启动检查立即执行"@ && PHRASES@[48].1@ == "проверка при запуске выполняется сразу"@,
        PHRASES@[49].0@ == "后台自动更新关闭，先执行无弹窗检查，仅在发现新版本时展示弹窗"@ && PHRASES@[49].1@ == "фоновое автообновление выключено: сначала тихая проверка, окно покажется только если найдётся новая версия"@,
        PHRASES@[50].0@ == "："@ && PHRASES@[50].1@ == ": "@,
        PHRASES@[51].0@ == "；"@ && PHRASES@[51].1@ == "; "@,
        PHRASES@[52].0@ == "更新检查完成：当前已是最新版本"@ && PHRASES@[52].1@ == "проверка обновлений завершена: уже установлена последняя версия"@,
        PHRASES@[53].0@ == "更新检查完成: 当前已是最新版本"@ && PHRASES@[53].1@ == "проверка обновлений завершена: уже установлена последняя версия"@,
        PHRASES@[54].0@ == "已更新 last_check_time，结束本次更新检查流程"@ && PHRASES@[54].1@ == "обновлено last_check_time, текущая проверка обновлений завершена"@,
        PHRASES@[55].0@ == "开始列出账号"@ && PHRASES@[55].1@ == "начат вывод списка аккаунтов"@,
        PHRASES@[56].0@ == "列出账号"@ && PHRASES@[56].1@ == "вывод списка аккаунтов"@,
        PHRASES@[57].0@ == "所有账号配额"@ && PHRASES@[57].1@ == "квоты всех аккаунтов"@,
        PHRASES@[58].0@ == "账号配额"@ && PHRASES@[58].1@ == "квоты аккаунтов"@,
        PHRASES@[59].0@ == "并发模式"@ && PHRASES@[59].1@ == "параллельный режим"@,
        PHRASES@[60].0@ == "最大并发"@ && PHRASES@[60].1@ == "максимальный параллелизм"@,
        PHRASES@[61].0@ == "上游返回失败"@ && PHRASES@[61].1@ == "апстрим вернул ошибку"@,
        PHRASES@[62].0@ == "创建系统托盘"@ && PHRASES@[62].1@ == "создание системного трея"@,
        PHRASES@[63].0@ == "上游返回失败"@ && PHRASES@[63].1@ == "апстрим вернул ошибку"@,
        PHRASES@[64].0@ == "启动时 get_current"@ && PHRASES@[64].1@ == "get_current при запуске"@,
        PHRASES@[65].0@ == "启动始终执行更新检查"@ && PHRASES@[65].1@ == "проверка обновлений при запуске выполняется всегда"@,
        PHRASES@[66].0@ == " 成功"@ && PHRASES@[66].1@ == " успешно"@,
        PHRASES@[67].0@ == " 失败"@ && PHRASES@[67].1@ == " с ошибкой"@,
        PHRASES@[68].0@ == "耗时"@ && PHRASES@[68].1@ == "затрачено"@,
        PHRASES@[69].0@ == "OAuth 登录开始"@ && PHRASES@[69].1@ == "запущен OAuth-вход"@,
        PHRASES@[70].0@ == "OAuth 登录完成"@ && PHRASES@[70].1@ == "OAuth-вход завершён"@,
        PHRASES@[71].0@ == "OAuth 等待完成"@ && PHRASES@[71].1@ == "ожидание завершения OAuth-входа"@,
        PHRASES@[72].0@ == "登录会话已创建"@ && PHRASES@[72].1@ == "сессия входа создана"@,
        PHRASES@[73].0@ == "复用登录会话"@ && PHRASES@[73].1@ == "переиспользуется существующая сессия входа"@,
        PHRASES@[74].0@ == "账号已保存"@ && PHRASES@[74].1@ == "аккаунт сохранён"@,
        PHRASES@[75].0@ == "start 命令触发"@ && PHRASES@[75].1@ == "команда start запущена"@,
        PHRASES@[76].0@ == "start 命令完成"@ && PHRASES@[76].1@ == "команда start завершена"@,
        PHRASES@[77].0@ == "complete 命令触发"@ && PHRASES@[77].1@ == "команда complete запущена"@,
        PHRASES@[78].0@ == "complete 命令完成"@ && PHRASES@[78].1@ == "команда complete завершена"@,
        PHRASES@[79].0@ == "peek 命令命中会话"@ && PHRASES@[79].1@ == "команда peek нашла активную сессию"@,
        PHRASES@[80].0@ == "开始创建登录会话"@ && PHRASES@[80].1@ == "начато создание сессии входа"@,
        PHRASES@[81].0@ == "开始等待回调完成"@ && PHRASES@[81].1@ == "начато ожидание завершения callback"@,
        PHRASES@[82].0@ == "未找到官方 machine token 缓存，将跳过机器标识注入"@ && PHRASES@[82].1@ == "официальный кэш machine token не найден, пропускаю внедрение машинного идентификатора"@,
        PHRASES@[83].0@ == "未找到官方 machine id 缓存，将继续使用无机器标识链路"@ && PHRASES@[83].1@ == "официальный кэш machine id не найден, продолжаю без машинного идентификатора"@,
        PHRASES@[84].0@ == "已生成官方 CLI device login 链接"@ && PHRASES@[84].1@ == "сгенерирована официальная CLI-ссылка device login"@,
        PHRASES@[85].0@ == "等待 device token 中"@ && PHRASES@[85].1@ == "ожидание device token"@,
        PHRASES@[86].0@ == "构造状态请求头"@ && PHRASES@[86].1@ == "собран заголовок статус-запроса"@,
        PHRASES@[87].0@ == "登录完成并入库成功"@ && PHRASES@[87].1@ == "вход завершён, аккаунт успешно сохранён"@,
        PHRASES@[88].0@ == "加载 Code Assist 信息"@ && PHRASES@[88].1@ == "загрузка информации Code Assist"@,
        PHRASES@[89].0@ == "keys="@ && PHRASES@[89].1@ == "ключи="@,
        PHRASES@[90].0@ == "受管 Windsurf 实例未在运行，无需关闭"@ && PHRASES@[90].1@ == "управляемые экземпляры Windsurf не запущены, закрывать нечего"@,
        PHRASES@[91].0@ == "未提供可关闭的 Windsurf 实例目录"@ && PHRASES@[91].1@ == "не переданы каталоги экземпляров Windsurf для закрытия"@,
{
}

/// Where no entry holds the character `c`, the first `count` entries are applied to the texts on
/// the two sides of a `c` separately.
pub proof fn law_phrases_apply_on_both_sides(
    a: Seq<char>,
    c: char,
    b: Seq<char>,
    count: nat,
)
    requires
        count <= PHRASE_COUNT,
        forall|i: int| 0 <= i < count ==> !(#[trigger] PHRASES@[i]).0@.contains(c),
    ensures
        translate::after_phrases(a + seq![c] + b, count) == translate::after_phrases(a, count)
            + seq![c] + translate::after_phrases(b, count),
    decreases count,
{
    if count > 0 {
        let before = (count - 1) as nat;
        law_phrases_apply_on_both_sides(a, c, b, before);
        assert(!PHRASES@[count - 1].0@.contains(c));
        text::law_replaced_on_both_sides(
            translate::after_phrases(a, before),
            c,
            translate::after_phrases(b, before),
            PHRASES@[count - 1].0@,
            PHRASES@[count - 1].1@,
        );
    }
}

/// Messages are translated line by line.
pub proof fn law_translation_is_line_by_line(a: Seq<char>, b: Seq<char>)
    ensures
        translate::translated(a + seq!['\n'] + b) == translate::translated(a) + seq!['\n']
            + translate::translated(b),
{
    assert forall|i: int| 0 <= i < PHRASE_COUNT implies !(#[trigger] PHRASES@[i]).0@.contains(
        '\n',
    ) by {
        lemma_phrase_shape(i);
    }
    law_phrases_apply_on_both_sides(a, '\n', b, PHRASE_COUNT as nat);
}

proof fn lemma_no_sign_is_added_by(message: Seq<char>, count: nat)
    requires
        count <= PHRASE_COUNT,
        !message.contains('@'),
    ensures
        !translate::after_phrases(message, count).contains('@'),
    decreases count,
{
    if count > 0 {
        lemma_no_sign_is_added_by(message, (count - 1) as nat);
        lemma_phrase_shape(count - 1);
        text::law_replaced_adds_no_character(
            translate::after_phrases(message, (count - 1) as nat),
            PHRASES@[count - 1].0@,
            PHRASES@[count - 1].1@,
            '@',
        );
    }
}

/// A message without the sign `@` is without it once translated.
pub proof fn law_no_sign_is_added(message: Seq<char>)
    requires
        !message.contains('@'),
    ensures
        !translate::translated(message).contains('@'),
{
    lemma_no_sign_is_added_by(message, PHRASE_COUNT as nat);
}

/// A message of nothing but the characters of plain addresses is not changed.
pub proof fn law_address_characters_are_kept(message: Seq<char>)
    requires
        forall|j: int| 0 <= j < message.len() ==> address_char(#[trigger] message[j]),
    ensures
        translate::translated(message) == message,
{
    assert forall|i: int| 0 <= i < PHRASE_COUNT implies !text::occurs(
        message,
        #[trigger] PHRASES@[i].0@,
    ) by {
        lemma_phrase_shape(i);
        let phrase = PHRASES@[i].0@;
        let k = choose|k: int| 0 <= k < phrase.len() && !address_char(#[trigger] phrase[k]);
        if text::occurs(message, phrase) {
            let at = choose|at: int|
                0 <= at <= message.len() - phrase.len() && #[trigger] message.subrange(
                    at,
                    at + phrase.len(),
                ) == phrase;
            assert(message.subrange(at, at + phrase.len())[k] == message[at + k]);
        }
    }
    translate::law_unknown_text_is_kept(message);
}

} // verus!
