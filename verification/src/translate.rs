//! Rewriting of known phrases in log messages.
use crate::text::{chars_of, law_replaced_absent, occurs, replace_all, replaced, text_of};
use vstd::prelude::*;

verus! {

/// The number of entries of [`PHRASES`].
pub const PHRASE_COUNT: usize = 92;

/// The known phrases and what stands for each, in the order in which they are applied.
pub const PHRASES: [(&'static str, &'static str); PHRASE_COUNT] = [
    ("开始刷新账号", "начало обновления аккаунта"),
    ("刷新完成", "обновление завершено"),
    ("手动刷新账号开始", "запущено ручное обновление аккаунта"),
    ("手动刷新账号完成", "ручное обновление аккаунта завершено"),
    ("手动批量刷新开始", "запущено ручное пакетное обновление"),
    ("手动批量刷新完成", "ручное пакетное обновление завершено"),
    ("手动批量обновление завершено", "ручное пакетное обновление завершено"),
    ("开始批量刷新", "запущено пакетное обновление"),
    ("批量刷新开始", "запущено пакетное обновление"),
    ("批量刷新结束", "пакетное обновление завершено"),
    ("批量刷新完成", "пакетное обновление завершено"),
    ("批量обновление завершено", "пакетное обновление завершено"),
    ("批量обновление", "пакетное обновление"),
    ("批量刷新", "пакетное обновление"),
    ("Token 保活成功", "token успешно продлён"),
    ("Codex 配额请求", "запрос квоты Codex"),
    ("Codex 配额响应元信息", "метаданные ответа по квоте Codex"),
    ("Codex 配额接口返回非成功状态", "интерфейс квоты Codex вернул неуспешный статус"),
    ("配额请求检测到失效 Token，准备强制刷新后重试", "запрос квоты обнаружил недействительный token, готовлю принудительное обновление и повтор"),
    ("用户信息拉取成功", "данные пользователя получены"),
    ("订阅信息拉取成功", "данные подписки получены"),
    ("API 配额拉取成功", "API-квота получена"),
    ("刷新失败", "обновление завершилось ошибкой"),
    ("未获取到有效配额快照，保留旧配额", "не удалось получить актуальный снимок квоты, оставляю старую квоту"),
    ("日志系统已完成初始化", "система логов инициализирована"),
    ("应用内未启用全局代理，已恢复启动时继承环境（未携带代理变量）", "встроенный глобальный прокси выключен, восстановлено унаследованное окружение запуска (без proxy-переменных)"),
    ("网页查询服务未启用，跳过启动", "веб-сервис отчётов выключен, запуск пропущен"),
    ("用户配置已保存", "пользовательская конфигурация сохранена"),
    ("服务状态已保存", "состояние сервиса сохранено"),
    ("WebSocket 服务已启动", "WebSocket-сервис запущен"),
    ("Cockpit Tools 启动...", "Cockpit Tools запускается..."),
    ("Tauri Updater + Process 插件已初始化", "плагины Tauri Updater и Process инициализированы"),
    ("后端 OAuth token 保活已启动", "фоновое продление OAuth token запущено"),
    ("已应用 macOS Dock 图标策略", "применена политика иконки в Dock на macOS"),
    ("创建骨架托盘", "создание базового трей-меню"),
    ("骨架托盘创建完成，等待后台加载完整菜单", "базовое трей-меню создано, жду фоновую загрузку полного меню"),
    ("macOS 原生菜单模式，跳过 Tauri 托盘菜单更新", "режим нативного меню macOS: обновление меню Tauri в трее пропущено"),
    ("本地接入服务已启动", "локальный сервис доступа запущен"),
    ("悬浮卡片窗口已创建", "окно плавающей карточки создано"),
    ("启动参数数量", "количество аргументов запуска"),
    ("开始处理外部导入参数", "начата обработка аргументов внешнего импорта"),
    ("检查参数", "проверка аргумента"),
    ("未发现 Deep Link 参数", "параметры deep link не найдены"),
    ("外部导入处理结果", "результат обработки внешнего импорта"),
    ("使用工作区公告文件 announcements.json", "используется файл объявлений рабочего проекта announcements.json"),
    ("读取待处理导入: empty", "отложенный импорт пуст"),
    ("启动触发自动更新检查流程", "при запуске запущена проверка обновлений"),
    ("读取更新设置", "прочитаны настройки обновления"),
    ("启动检查立即执行", "проверка при запуске выполняется сразу"),
    ("后台自动更新关闭，先执行无弹窗检查，仅在发现新版本时展示弹窗", "фоновое автообновление выключено: сначала тихая проверка, окно покажется только если найдётся новая версия"),
    ("：", ": "),
    ("；", "; "),
    ("更新检查完成：当前已是最新版本", "проверка обновлений завершена: уже установлена последняя версия"),
    ("更新检查完成: 当前已是最新版本", "проверка обновлений завершена: уже установлена последняя версия"),
    ("已更新 last_check_time，结束本次更新检查流程", "обновлено last_check_time, текущая проверка обновлений завершена"),
    ("开始列出账号", "начат вывод списка аккаунтов"),
    ("列出账号", "вывод списка аккаунтов"),
    ("所有账号配额", "квоты всех аккаунтов"),
    ("账号配额", "квоты аккаунтов"),
    ("并发模式", "параллельный режим"),
    ("最大并发", "максимальный параллелизм"),
    ("上游返回失败", "апстрим вернул ошибку"),
    ("创建系统托盘", "создание системного трея"),
    ("上游返回失败", "апстрим вернул ошибку"),
    ("启动时 get_current", "get_current при запуске"),
    ("启动始终执行更新检查", "проверка обновлений при запуске выполняется всегда"),
    (" 成功", " успешно"),
    (" 失败", " с ошибкой"),
    ("耗时", "затрачено"),
    ("OAuth 登录开始", "запущен OAuth-вход"),
    ("OAuth 登录完成", "OAuth-вход завершён"),
    ("OAuth 等待完成", "ожидание завершения OAuth-входа"),
    ("登录会话已创建", "сессия входа создана"),
    ("复用登录会话", "переиспользуется существующая сессия входа"),
    ("账号已保存", "аккаунт сохранён"),
    ("start 命令触发", "команда start запущена"),
    ("start 命令完成", "команда start завершена"),
    ("complete 命令触发", "команда complete запущена"),
    ("complete 命令完成", "команда complete завершена"),
    ("peek 命令命中会话", "команда peek нашла активную сессию"),
    ("开始创建登录会话", "начато создание сессии входа"),
    ("开始等待回调完成", "начато ожидание завершения callback"),
    ("未找到官方 machine token 缓存，将跳过机器标识注入", "официальный кэш machine token не найден, пропускаю внедрение машинного идентификатора"),
    ("未找到官方 machine id 缓存，将继续使用无机器标识链路", "официальный кэш machine id не найден, продолжаю без машинного идентификатора"),
    ("已生成官方 CLI device login 链接", "сгенерирована официальная CLI-ссылка device login"),
    ("等待 device token 中", "ожидание device token"),
    ("构造状态请求头", "собран заголовок статус-запроса"),
    ("登录完成并入库成功", "вход завершён, аккаунт успешно сохранён"),
    ("加载 Code Assist 信息", "загрузка информации Code Assist"),
    ("keys=", "ключи="),
    ("受管 Windsurf 实例未在运行，无需关闭", "управляемые экземпляры Windsurf не запущены, закрывать нечего"),
    ("未提供可关闭的 Windsurf 实例目录", "не переданы каталоги экземпляров Windsurf для закрытия"),
];

/// `message` after the first `count` entries of [`PHRASES`] have been applied, one after the
/// other, each to what the entry before it left.
pub open spec fn after_phrases(message: Seq<char>, count: nat) -> Seq<char>
    decreases count,
{
    if count == 0 {
        message
    } else {
        replaced(
            after_phrases(message, (count - 1) as nat),
            PHRASES@[count - 1].0@,
            PHRASES@[count - 1].1@,
        )
    }
}

/// `message` with every known phrase rewritten.
pub open spec fn translated(message: Seq<char>) -> Seq<char> {
    after_phrases(message, PHRASE_COUNT as nat)
}

/// Whether none of the known phrases stands in `message`.
pub open spec fn no_phrase_occurs(message: Seq<char>) -> bool {
    forall|i: int| 0 <= i < PHRASE_COUNT ==> !occurs(message, #[trigger] PHRASES@[i].0@)
}

/// After any number of entries, a message in which none of them occurs is as it was.
pub proof fn law_unknown_text_is_kept_by(message: Seq<char>, count: nat)
    requires
        count <= PHRASE_COUNT,
        forall|i: int| 0 <= i < count ==> !occurs(message, #[trigger] PHRASES@[i].0@),
    ensures
        after_phrases(message, count) == message,
    decreases count,
{
    if count > 0 {
        law_unknown_text_is_kept_by(message, (count - 1) as nat);
        assert(!occurs(message, PHRASES@[count - 1].0@));
        law_replaced_absent(message, PHRASES@[count - 1].0@, PHRASES@[count - 1].1@);
    }
}

/// A message in which no known phrase occurs is not changed.
pub proof fn law_unknown_text_is_kept(message: Seq<char>)
    requires
        no_phrase_occurs(message),
    ensures
        translated(message) == message,
{
    law_unknown_text_is_kept_by(message, PHRASE_COUNT as nat);
}

/// Rewrites the known phrases of `message`.
pub fn translate_log_message(message: &str) -> (res: String)
    ensures
        res@ == translated(message@),
{
    let phrases = PHRASES;
    let mut current = chars_of(message);
    let mut i: usize = 0;
    while i < phrases.len()
        invariant
            i <= PHRASE_COUNT,
            phrases == PHRASES,
            current@ == after_phrases(message@, i as nat),
        decreases PHRASE_COUNT - i,
    {
        current = replace_all(&current, phrases[i].0, phrases[i].1);
        i += 1;
    }
    text_of(&current)
}

} // verus!
